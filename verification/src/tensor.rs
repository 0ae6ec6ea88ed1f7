//! Tensor data structure: element types, operation tags, flags and the
//! tensor record itself (shape, byte strides, operation parameters).

use vstd::prelude::*;

verus! {

/// Maximum number of dimensions supported by tensors
pub const GGML_MAX_DIMS: usize = 4;

/// Maximum number of source tensors (for operations)
pub const GGML_MAX_SRC: usize = 10;

/// Maximum number of operation parameters
pub const GGML_MAX_OP_PARAMS: usize = 64;

/// Tensor data types
#[derive(Debug, Clone, Copy, PartialEq, Eq, Hash, Structural)]
#[allow(non_camel_case_types)]
pub enum TensorType {
    F32,
    F16,
    BF16,
    F64,
    I8,
    I16,
    I32,
    I64,
    Q4_0,
    Q4_1,
    Q5_0,
    Q5_1,
    Q8_0,
    Q8_1,
    Q2_K,
    Q3_K,
    Q4_K,
    Q5_K,
    Q6_K,
    Q8_K,
    IQ2_XXS,
    IQ2_XS,
    IQ3_XXS,
    IQ1_S,
    IQ4_NL,
    IQ3_S,
    IQ2_S,
    IQ4_XS,
    IQ1_M,
    Q4_0_4_4,
    Q4_0_4_8,
    Q4_0_8_8,
    TQ1_0,
    TQ2_0,
    IQ4_NL_4_4,
    IQ4_NL_4_8,
    IQ4_NL_8_8,
}

impl TensorType {
    pub open spec fn spec_is_quantized(self) -> bool {
        !(self is F32 || self is F16 || self is BF16 || self is F64 || self is I8 || self is I16
            || self is I32 || self is I64)
    }

    pub open spec fn spec_element_size(self) -> usize {
        match self {
            TensorType::F32 | TensorType::I32 => 4,
            TensorType::F16 | TensorType::BF16 | TensorType::I16 => 2,
            TensorType::I8 => 1,
            TensorType::I64 | TensorType::F64 => 8,
            _ => 0,
        }
    }

    pub open spec fn spec_block_size(self) -> usize {
        if !self.spec_is_quantized() {
            1
        } else if self is Q4_0 || self is Q4_1 || self is Q5_0 || self is Q5_1 || self is Q8_0
            || self is Q8_1 || self is Q4_0_4_4 || self is Q4_0_4_8 || self is Q4_0_8_8 {
            32
        } else {
            256
        }
    }

    pub open spec fn spec_bytes_per_block(self) -> usize {
        match self {
            TensorType::F32 => 4,
            TensorType::F16 => 2,
            TensorType::BF16 => 2,
            TensorType::F64 => 8,
            TensorType::I8 => 1,
            TensorType::I16 => 2,
            TensorType::I32 => 4,
            TensorType::I64 => 8,
            TensorType::Q4_0 => 18,
            TensorType::Q4_1 => 20,
            TensorType::Q5_0 => 22,
            TensorType::Q5_1 => 24,
            TensorType::Q8_0 => 34,
            TensorType::Q8_1 => 36,
            TensorType::Q2_K => 82,
            TensorType::Q3_K => 110,
            TensorType::Q4_K => 144,
            TensorType::Q5_K => 176,
            TensorType::Q6_K => 210,
            TensorType::Q8_K => 292,
            TensorType::IQ2_XXS => 66,
            TensorType::IQ2_XS => 74,
            TensorType::IQ3_XXS => 98,
            TensorType::IQ1_S => 50,
            TensorType::IQ4_NL => 130,
            TensorType::IQ3_S => 106,
            TensorType::IQ2_S => 82,
            TensorType::IQ4_XS => 136,
            TensorType::IQ1_M => 56,
            TensorType::Q4_0_4_4 => 18,
            TensorType::Q4_0_4_8 => 18,
            TensorType::Q4_0_8_8 => 18,
            TensorType::TQ1_0 => 66,
            TensorType::TQ2_0 => 130,
            TensorType::IQ4_NL_4_4 => 130,
            TensorType::IQ4_NL_4_8 => 130,
            TensorType::IQ4_NL_8_8 => 130,
        }
    }

    pub open spec fn spec_name(self) -> Seq<char> {
        match self {
            TensorType::F32 => "f32"@,
            TensorType::F16 => "f16"@,
            TensorType::BF16 => "bf16"@,
            TensorType::F64 => "f64"@,
            TensorType::I8 => "i8"@,
            TensorType::I16 => "i16"@,
            TensorType::I32 => "i32"@,
            TensorType::I64 => "i64"@,
            TensorType::Q4_0 => "q4_0"@,
            TensorType::Q4_1 => "q4_1"@,
            TensorType::Q5_0 => "q5_0"@,
            TensorType::Q5_1 => "q5_1"@,
            TensorType::Q8_0 => "q8_0"@,
            TensorType::Q8_1 => "q8_1"@,
            TensorType::Q2_K => "q2_k"@,
            TensorType::Q3_K => "q3_k"@,
            TensorType::Q4_K => "q4_k"@,
            TensorType::Q5_K => "q5_k"@,
            TensorType::Q6_K => "q6_k"@,
            TensorType::Q8_K => "q8_k"@,
            TensorType::IQ2_XXS => "iq2_xxs"@,
            TensorType::IQ2_XS => "iq2_xs"@,
            TensorType::IQ3_XXS => "iq3_xxs"@,
            TensorType::IQ1_S => "iq1_s"@,
            TensorType::IQ4_NL => "iq4_nl"@,
            TensorType::IQ3_S => "iq3_s"@,
            TensorType::IQ2_S => "iq2_s"@,
            TensorType::IQ4_XS => "iq4_xs"@,
            TensorType::IQ1_M => "iq1_m"@,
            TensorType::Q4_0_4_4 => "q4_0_4_4"@,
            TensorType::Q4_0_4_8 => "q4_0_4_8"@,
            TensorType::Q4_0_8_8 => "q4_0_8_8"@,
            TensorType::TQ1_0 => "tq1_0"@,
            TensorType::TQ2_0 => "tq2_0"@,
            TensorType::IQ4_NL_4_4 => "iq4_nl_4_4"@,
            TensorType::IQ4_NL_4_8 => "iq4_nl_4_8"@,
            TensorType::IQ4_NL_8_8 => "iq4_nl_8_8"@,
        }
    }


    /// The type's number in the GGML type table (the number a GGUF file
    /// stores for a tensor of this type).
    pub open spec fn spec_ggml_id(self) -> u32 {
        match self {
            TensorType::F32 => 0,
            TensorType::F16 => 1,
            TensorType::BF16 => 30,
            TensorType::F64 => 28,
            TensorType::I8 => 24,
            TensorType::I16 => 25,
            TensorType::I32 => 26,
            TensorType::I64 => 27,
            TensorType::Q4_0 => 2,
            TensorType::Q4_1 => 3,
            TensorType::Q5_0 => 6,
            TensorType::Q5_1 => 7,
            TensorType::Q8_0 => 8,
            TensorType::Q8_1 => 9,
            TensorType::Q2_K => 10,
            TensorType::Q3_K => 11,
            TensorType::Q4_K => 12,
            TensorType::Q5_K => 13,
            TensorType::Q6_K => 14,
            TensorType::Q8_K => 15,
            TensorType::IQ2_XXS => 16,
            TensorType::IQ2_XS => 17,
            TensorType::IQ3_XXS => 18,
            TensorType::IQ1_S => 19,
            TensorType::IQ4_NL => 20,
            TensorType::IQ3_S => 21,
            TensorType::IQ2_S => 22,
            TensorType::IQ4_XS => 23,
            TensorType::IQ1_M => 29,
            TensorType::Q4_0_4_4 => 31,
            TensorType::Q4_0_4_8 => 32,
            TensorType::Q4_0_8_8 => 33,
            TensorType::TQ1_0 => 34,
            TensorType::TQ2_0 => 35,
            TensorType::IQ4_NL_4_4 => 36,
            TensorType::IQ4_NL_4_8 => 37,
            TensorType::IQ4_NL_8_8 => 38,
        }
    }

    /// Returns the type's number in the GGML type table.
    pub fn ggml_id(self) -> (r: u32)
        ensures
            r == self.spec_ggml_id(),
    {
        match self {
            TensorType::F32 => 0,
            TensorType::F16 => 1,
            TensorType::BF16 => 30,
            TensorType::F64 => 28,
            TensorType::I8 => 24,
            TensorType::I16 => 25,
            TensorType::I32 => 26,
            TensorType::I64 => 27,
            TensorType::Q4_0 => 2,
            TensorType::Q4_1 => 3,
            TensorType::Q5_0 => 6,
            TensorType::Q5_1 => 7,
            TensorType::Q8_0 => 8,
            TensorType::Q8_1 => 9,
            TensorType::Q2_K => 10,
            TensorType::Q3_K => 11,
            TensorType::Q4_K => 12,
            TensorType::Q5_K => 13,
            TensorType::Q6_K => 14,
            TensorType::Q8_K => 15,
            TensorType::IQ2_XXS => 16,
            TensorType::IQ2_XS => 17,
            TensorType::IQ3_XXS => 18,
            TensorType::IQ1_S => 19,
            TensorType::IQ4_NL => 20,
            TensorType::IQ3_S => 21,
            TensorType::IQ2_S => 22,
            TensorType::IQ4_XS => 23,
            TensorType::IQ1_M => 29,
            TensorType::Q4_0_4_4 => 31,
            TensorType::Q4_0_4_8 => 32,
            TensorType::Q4_0_8_8 => 33,
            TensorType::TQ1_0 => 34,
            TensorType::TQ2_0 => 35,
            TensorType::IQ4_NL_4_4 => 36,
            TensorType::IQ4_NL_4_8 => 37,
            TensorType::IQ4_NL_8_8 => 38,
        }
    }

    /// The byte size of one storage unit: a block for quantized types, an
    /// element otherwise.
    pub open spec fn spec_type_size(self) -> usize {
        if self.spec_is_quantized() {
            self.spec_bytes_per_block()
        } else {
            self.spec_element_size()
        }
    }

    /// Returns the size in bytes of a single element (for non-quantized types)
    pub fn element_size(self) -> (r: usize)
        ensures
            r == self.spec_element_size(),
    {
        match self {
            TensorType::F32 | TensorType::I32 => 4,
            TensorType::F16 | TensorType::BF16 | TensorType::I16 => 2,
            TensorType::I8 => 1,
            TensorType::I64 | TensorType::F64 => 8,
            _ => 0,
        }
    }

    /// Returns the block size for quantized types
    pub fn block_size(self) -> (r: usize)
        ensures
            r == self.spec_block_size(),
    {
        match self {
            TensorType::F32 | TensorType::F16 | TensorType::BF16 | TensorType::F64 => 1,
            TensorType::I8 | TensorType::I16 | TensorType::I32 | TensorType::I64 => 1,
            TensorType::Q4_0 | TensorType::Q4_1 | TensorType::Q5_0 | TensorType::Q5_1
            | TensorType::Q8_0 | TensorType::Q8_1 => 32,
            TensorType::Q2_K | TensorType::Q3_K | TensorType::Q4_K | TensorType::Q5_K
            | TensorType::Q6_K | TensorType::Q8_K => 256,
            TensorType::IQ2_XXS | TensorType::IQ2_XS | TensorType::IQ3_XXS | TensorType::IQ1_S
            | TensorType::IQ4_NL => 256,
            TensorType::IQ3_S | TensorType::IQ2_S | TensorType::IQ4_XS | TensorType::IQ1_M => 256,
            TensorType::Q4_0_4_4 | TensorType::Q4_0_4_8 | TensorType::Q4_0_8_8 => 32,
            TensorType::TQ1_0 | TensorType::TQ2_0 => 256,
            TensorType::IQ4_NL_4_4 | TensorType::IQ4_NL_4_8 | TensorType::IQ4_NL_8_8 => 256,
        }
    }

    /// Returns true if this is a quantized type
    pub fn is_quantized(self) -> (r: bool)
        ensures
            r == self.spec_is_quantized(),
    {
        !matches!(
            self,
            TensorType::F32 | TensorType::F16 | TensorType::BF16 | TensorType::F64
            | TensorType::I8 | TensorType::I16 | TensorType::I32 | TensorType::I64
        )
    }

    /// Byte size of one storage unit (block or element)
    pub fn type_size(self) -> (r: usize)
        ensures
            r == self.spec_type_size(),
            r >= 1,
    {
        if self.is_quantized() {
            self.bytes_per_block()
        } else {
            self.element_size()
        }
    }

    /// Returns the number of bytes per block for quantized types
    pub fn bytes_per_block(self) -> (r: usize)
        ensures
            r == self.spec_bytes_per_block(),
    {
        match self {
            TensorType::F32 => 4,
            TensorType::F16 => 2,
            TensorType::BF16 => 2,
            TensorType::F64 => 8,
            TensorType::I8 => 1,
            TensorType::I16 => 2,
            TensorType::I32 => 4,
            TensorType::I64 => 8,
            TensorType::Q4_0 => 18,
            TensorType::Q4_1 => 20,
            TensorType::Q5_0 => 22,
            TensorType::Q5_1 => 24,
            TensorType::Q8_0 => 34,
            TensorType::Q8_1 => 36,
            TensorType::Q2_K => 82,
            TensorType::Q3_K => 110,
            TensorType::Q4_K => 144,
            TensorType::Q5_K => 176,
            TensorType::Q6_K => 210,
            TensorType::Q8_K => 292,
            TensorType::IQ2_XXS => 66,
            TensorType::IQ2_XS => 74,
            TensorType::IQ3_XXS => 98,
            TensorType::IQ1_S => 50,
            TensorType::IQ4_NL => 130,
            TensorType::IQ3_S => 106,
            TensorType::IQ2_S => 82,
            TensorType::IQ4_XS => 136,
            TensorType::IQ1_M => 56,
            TensorType::Q4_0_4_4 => 18,
            TensorType::Q4_0_4_8 => 18,
            TensorType::Q4_0_8_8 => 18,
            TensorType::TQ1_0 => 66,
            TensorType::TQ2_0 => 130,
            TensorType::IQ4_NL_4_4 => 130,
            TensorType::IQ4_NL_4_8 => 130,
            TensorType::IQ4_NL_8_8 => 130,
        }
    }

    /// Returns the type name as a string
    pub fn name(self) -> (r: &'static str)
        ensures
            r@ == self.spec_name(),
    {
        match self {
            TensorType::F32 => "f32",
            TensorType::F16 => "f16",
            TensorType::BF16 => "bf16",
            TensorType::F64 => "f64",
            TensorType::I8 => "i8",
            TensorType::I16 => "i16",
            TensorType::I32 => "i32",
            TensorType::I64 => "i64",
            TensorType::Q4_0 => "q4_0",
            TensorType::Q4_1 => "q4_1",
            TensorType::Q5_0 => "q5_0",
            TensorType::Q5_1 => "q5_1",
            TensorType::Q8_0 => "q8_0",
            TensorType::Q8_1 => "q8_1",
            TensorType::Q2_K => "q2_k",
            TensorType::Q3_K => "q3_k",
            TensorType::Q4_K => "q4_k",
            TensorType::Q5_K => "q5_k",
            TensorType::Q6_K => "q6_k",
            TensorType::Q8_K => "q8_k",
            TensorType::IQ2_XXS => "iq2_xxs",
            TensorType::IQ2_XS => "iq2_xs",
            TensorType::IQ3_XXS => "iq3_xxs",
            TensorType::IQ1_S => "iq1_s",
            TensorType::IQ4_NL => "iq4_nl",
            TensorType::IQ3_S => "iq3_s",
            TensorType::IQ2_S => "iq2_s",
            TensorType::IQ4_XS => "iq4_xs",
            TensorType::IQ1_M => "iq1_m",
            TensorType::Q4_0_4_4 => "q4_0_4_4",
            TensorType::Q4_0_4_8 => "q4_0_4_8",
            TensorType::Q4_0_8_8 => "q4_0_8_8",
            TensorType::TQ1_0 => "tq1_0",
            TensorType::TQ2_0 => "tq2_0",
            TensorType::IQ4_NL_4_4 => "iq4_nl_4_4",
            TensorType::IQ4_NL_4_8 => "iq4_nl_4_8",
            TensorType::IQ4_NL_8_8 => "iq4_nl_8_8",
        }
    }
}

/// Tensor operation types
#[derive(Debug, Clone, Copy, PartialEq, Eq, Hash, Structural)]
pub enum OpType {
    NoOp,
    Dup,
    Add,
    Add1,
    Acc,
    Sub,
    Mul,
    Div,
    Sqr,
    Sqrt,
    Log,
    Sum,
    SumRows,
    Mean,
    Argmax,
    Repeat,
    RepeatBack,
    Concat,
    Silu,
    SiluBack,
    Norm,
    RmsNorm,
    RmsNormBack,
    GroupNorm,
    MulMat,
    MulMatId,
    OutProd,
    Scale,
    SetOp,
    Cpy,
    Cont,
    Reshape,
    View,
    Permute,
    Transpose,
    GetRows,
    GetRowsBack,
    Diag,
    DiagMaskInf,
    DiagMaskZero,
    SoftMax,
    SoftMaxBack,
    Rope,
    RopeBack,
    Clamp,
    Conv1d,
    Conv2d,
    Pool1d,
    Pool2d,
    Upscale,
    Pad,
    Argsort,
    Leaky,
    Flash,
    FlashBack,
    Unary,
    MapUnary,
    MapBinary,
    MapCustom1,
    MapCustom2,
    MapCustom3,
    CrossEntropyLoss,
    CrossEntropyLossBack,
}

/// Unary operation types
#[derive(Debug, Clone, Copy, PartialEq, Eq, Structural)]
pub enum UnaryOp {
    Abs,
    Sgn,
    Neg,
    Step,
    Tanh,
    Elu,
    Relu,
    Gelu,
    GeluQuick,
    Silu,
    Hardswish,
    Hardsigmoid,
    Exp,
    Sin,
    Cos,
}

/// Tensor flags (a bit set: input, output, parameter)
#[derive(Debug, Clone, Copy, PartialEq, Eq, Structural)]
pub struct TensorFlags(u32);

impl TensorFlags {
    pub closed spec fn bits(self) -> u32 {
        self.0
    }

    pub closed spec fn spec_none() -> TensorFlags {
        TensorFlags(0)
    }

    /// The empty flag set
    pub fn none() -> (r: Self)
        ensures
            r.bits() == 0,
            r == Self::spec_none(),
    {
        TensorFlags(0)
    }

    /// The flag set holding only the input bit
    pub fn input() -> (r: Self)
        ensures
            r.bits() == 1,
    {
        TensorFlags(1)
    }

    /// The flag set holding only the output bit
    pub fn output() -> (r: Self)
        ensures
            r.bits() == 2,
    {
        TensorFlags(2)
    }

    /// The flag set holding only the parameter bit
    pub fn param() -> (r: Self)
        ensures
            r.bits() == 4,
    {
        TensorFlags(4)
    }

    pub fn new() -> (r: Self)
        ensures
            r.bits() == 0,
            r == Self::spec_none(),
    {
        Self::none()
    }

    pub fn is_input(self) -> (r: bool)
        ensures
            r == (self.bits() & 1 != 0),
    {
        self.0 & 1 != 0
    }

    pub fn is_output(self) -> (r: bool)
        ensures
            r == (self.bits() & 2 != 0),
    {
        self.0 & 2 != 0
    }

    pub fn is_param(self) -> (r: bool)
        ensures
            r == (self.bits() & 4 != 0),
    {
        self.0 & 4 != 0
    }
}

impl Default for TensorFlags {
    fn default() -> (r: Self)
        ensures
            r.bits() == 0,
    {
        Self::none()
    }
}

/// Where a tensor's bytes live inside a context: a block and a byte offset in it.
#[derive(Debug, Clone, Copy, PartialEq, Eq, Structural)]
pub struct DataPtr {
    pub block: usize,
    pub offset: usize,
}

impl DataPtr {
    /// The byte offset of the data inside its block. Offsets handed out by a
    /// context are multiples of its alignment; the blocks are byte vectors, so
    /// the addresses they start at carry no alignment of their own.
    pub fn offset(&self) -> (r: usize)
        ensures
            r == self.offset,
    {
        self.offset
    }

    /// The index of the block holding the data
    pub fn block(&self) -> (r: usize)
        ensures
            r == self.block,
    {
        self.block
    }
}

/// A shape of up to four dimensions padded with ones to exactly four.
pub open spec fn padded_shape(shape: Seq<usize>) -> Seq<usize> {
    Seq::new(4, |i: int| if i < shape.len() { shape[i] } else { 1usize })
}

/// Product of the four dimensions.
pub open spec fn shape_count(ne: Seq<usize>) -> int {
    ne[0] * ne[1] * ne[2] * ne[3]
}

/// Byte strides of a row-major layout with unit size `ts` fit in a `usize`.
pub open spec fn strides_fit(ts: int, ne: Seq<usize>) -> bool {
    &&& ts * ne[0] <= usize::MAX
    &&& ts * ne[0] * ne[1] <= usize::MAX
    &&& ts * ne[0] * ne[1] * ne[2] <= usize::MAX
}

/// Byte strides of a row-major layout with unit size `ts`.
pub open spec fn spec_strides(ts: usize, ne: Seq<usize>) -> Seq<usize> {
    seq![
        ts,
        (ts * ne[0]) as usize,
        (ts * ne[0] * ne[1]) as usize,
        (ts * ne[0] * ne[1] * ne[2]) as usize,
    ]
}

/// Every partial product of the element count fits in a `usize`.
pub open spec fn count_fits(ne: Seq<usize>) -> bool {
    &&& ne[0] * ne[1] <= usize::MAX
    &&& ne[0] * ne[1] * ne[2] <= usize::MAX
    &&& ne[0] * ne[1] * ne[2] * ne[3] <= usize::MAX
}

/// Number of bytes that a tensor of type `t` and shape `ne` occupies.
pub open spec fn spec_size_bytes(t: TensorType, ne: Seq<usize>) -> int {
    if t.spec_is_quantized() {
        ((shape_count(ne) + t.spec_block_size() - 1) / (t.spec_block_size() as int)) * (
        t.spec_bytes_per_block() as int)
    } else {
        shape_count(ne) * t.spec_element_size()
    }
}

/// The byte size of a tensor of type `t` and shape `ne` is computable without overflow.
pub open spec fn size_fits(t: TensorType, ne: Seq<usize>) -> bool {
    &&& count_fits(ne)
    &&& t.spec_is_quantized() ==> shape_count(ne) + t.spec_block_size() <= usize::MAX
    &&& spec_size_bytes(t, ne) <= usize::MAX
}

/// Number of dimensions: the position of the last dimension larger than one.
pub open spec fn spec_n_dims(ne: Seq<usize>) -> usize {
    if ne[3] > 1 {
        4
    } else if ne[2] > 1 {
        3
    } else if ne[1] > 1 {
        2
    } else {
        1
    }
}

/// The first `k` dimensions of `ne`, padded with ones.
pub open spec fn leading_shape(ne: Seq<usize>, k: int) -> Seq<usize> {
    padded_shape(ne.take(k))
}

/// Operation parameters: the given leading values, zeros elsewhere.
pub open spec fn params_with(lead: Seq<i32>) -> Seq<i32> {
    Seq::new(64, |i: int| if i < lead.len() { lead[i] } else { 0i32 })
}

/// The metadata of a tensor built for operation `op` with parameters `params`,
/// stored at `p` with identity `id`.
pub open spec fn node_meta(
    t: TensorType,
    ne: Seq<usize>,
    op: OpType,
    params: Seq<i32>,
    p: DataPtr,
    id: usize,
) -> TensorMeta {
    TensorMeta {
        tensor_type: t,
        ne,
        nb: spec_strides(t.spec_type_size(), ne),
        op,
        op_params: params,
        flags: TensorFlags::spec_none(),
        data: Some(p),
        name: Seq::empty(),
        id,
    }
}

/// The shape of a node that takes over the leading dimensions of `ne`.
pub open spec fn like_shape(ne: Seq<usize>) -> Seq<usize> {
    leading_shape(ne, spec_n_dims(ne) as int)
}

/// Core tensor structure
///
/// A multi-dimensional array description: element type, shape, byte strides,
/// the operation that produces it and where its bytes live in a context.
#[derive(Debug)]
pub struct Tensor {
    /// Tensor data type
    pub tensor_type: TensorType,
    /// Number of elements in each dimension
    pub ne: [usize; 4],
    /// Stride in bytes for each dimension
    pub nb: [usize; 4],
    /// Operation type (for computation graph)
    pub op: OpType,
    /// Operation parameters
    pub op_params: [i32; 64],
    /// Flags
    pub flags: TensorFlags,
    /// Gradient tensor (for autodiff)
    pub grad: Option<Box<Tensor>>,
    /// Source tensors (inputs to this operation)
    pub src: Vec<Option<Box<Tensor>>>,
    /// Location of the tensor data
    pub data: Option<DataPtr>,
    /// Name (for debugging)
    pub name: String,
    /// Identity given by the context that allocated the tensor (0: none)
    pub id: usize,
}

/// Everything about a tensor but its gradient and source links.
pub struct TensorMeta {
    pub tensor_type: TensorType,
    pub ne: Seq<usize>,
    pub nb: Seq<usize>,
    pub op: OpType,
    pub op_params: Seq<i32>,
    pub flags: TensorFlags,
    pub data: Option<DataPtr>,
    pub name: Seq<char>,
    pub id: usize,
}

impl Tensor {
    pub open spec fn meta(&self) -> TensorMeta {
        TensorMeta {
            tensor_type: self.tensor_type,
            ne: self.ne@,
            nb: self.nb@,
            op: self.op,
            op_params: self.op_params@,
            flags: self.flags,
            data: self.data,
            name: self.name@,
            id: self.id,
        }
    }

    pub open spec fn spec_data(&self) -> Option<DataPtr> {
        self.data
    }

    pub open spec fn spec_name(&self) -> Seq<char> {
        self.name@
    }

    pub open spec fn spec_id(&self) -> usize {
        self.id
    }

    /// No gradient and ten empty source slots, as every new tensor has.
    pub open spec fn links_fresh(&self) -> bool {
        &&& self.grad is None
        &&& self.src@.len() == 10
        &&& forall|i: int| 0 <= i < 10 ==> #[trigger] self.src@[i] is None
    }

    /// The tensor is exactly what `Tensor::new(t, ..)` builds for the padded shape `ne`.
    pub open spec fn is_fresh(&self, t: TensorType, ne: Seq<usize>) -> bool {
        &&& self.tensor_type == t
        &&& self.ne@ == ne
        &&& self.nb@ == spec_strides(t.spec_type_size(), ne)
        &&& self.op == OpType::NoOp
        &&& self.op_params@ == params_with(seq![])
        &&& self.flags == TensorFlags::spec_none()
        &&& self.grad is None
        &&& self.src@.len() == 10
        &&& forall|i: int| 0 <= i < 10 ==> #[trigger] self.src@[i] is None
        &&& self.spec_name() == Seq::<char>::empty()
    }

    /// Create a new tensor with the given shape and type
    pub fn new(tensor_type: TensorType, shape: &[usize]) -> (r: Self)
        requires
            shape@.len() <= 4,
            strides_fit(tensor_type.spec_type_size() as int, padded_shape(shape@)),
        ensures
            r.is_fresh(tensor_type, padded_shape(shape@)),
            r.spec_data() is None,
            r.spec_id() == 0,
            r.contiguity_fits(),
            r.spec_is_contiguous(),
    {
        let len = shape.len();
        let d0 = if len > 0 { shape[0] } else { 1 };
        let d1 = if len > 1 { shape[1] } else { 1 };
        let d2 = if len > 2 { shape[2] } else { 1 };
        let d3 = if len > 3 { shape[3] } else { 1 };
        let ne = [d0, d1, d2, d3];
        assert(ne@ =~= padded_shape(shape@));

        // Calculate strides (row-major order)
        let type_size = tensor_type.type_size();
        let nb0 = type_size;
        let nb1 = nb0 * d0;
        let nb2 = nb1 * d1;
        let nb3 = nb2 * d2;
        let nb = [nb0, nb1, nb2, nb3];
        assert(nb@ =~= spec_strides(type_size, ne@));
        let op_params = [0i32; 64];
        assert(op_params@ =~= params_with(seq![]));
        let r = Tensor {
            tensor_type,
            ne,
            nb,
            op: OpType::NoOp,
            op_params,
            flags: TensorFlags::new(),
            grad: None,
            src: vec![None, None, None, None, None, None, None, None, None, None],
            data: None,
            name: String::new(),
            id: 0,
        };
        proof {
            lemma_fresh_tensor_is_contiguous(r, tensor_type, ne@);
        }
        r
    }

    /// Get the number of dimensions
    pub fn n_dims(&self) -> (r: usize)
        ensures
            r == spec_n_dims(self.ne@),
            1 <= r <= 4,
    {
        if self.ne[3] > 1 {
            4
        } else if self.ne[2] > 1 {
            3
        } else if self.ne[1] > 1 {
            2
        } else {
            1
        }
    }

    /// Get the total number of elements
    pub fn n_elements(&self) -> (r: usize)
        requires
            count_fits(self.ne@),
        ensures
            r == shape_count(self.ne@),
    {
        let p1 = self.ne[0] * self.ne[1];
        let p2 = p1 * self.ne[2];
        p2 * self.ne[3]
    }

    /// Get the size in bytes
    pub fn size_bytes(&self) -> (r: usize)
        requires
            size_fits(self.tensor_type, self.ne@),
        ensures
            r == spec_size_bytes(self.tensor_type, self.ne@),
    {
        if self.tensor_type.is_quantized() {
            let n_elements = self.n_elements();
            let block_size = self.tensor_type.block_size();
            let bytes_per_block = self.tensor_type.bytes_per_block();
            let n_blocks = (n_elements + block_size - 1) / block_size;
            n_blocks * bytes_per_block
        } else {
            self.n_elements() * self.tensor_type.element_size()
        }
    }

    /// Strides below the last dimension agree with a row-major layout
    /// (the products compared are computable without overflow).
    pub open spec fn contiguity_fits(&self) -> bool {
        forall|i: int|
            1 <= i < spec_n_dims(self.ne@) ==> #[trigger] self.nb@[i - 1] * self.ne@[i - 1]
                <= usize::MAX
    }

    pub open spec fn spec_is_contiguous(&self) -> bool {
        &&& self.nb@[0] == self.tensor_type.spec_type_size()
        &&& forall|i: int|
            1 <= i < spec_n_dims(self.ne@) ==> #[trigger] self.nb@[i] == self.nb@[i - 1]
                * self.ne@[i - 1]
    }

    /// Check if the tensor is contiguous in memory
    pub fn is_contiguous(&self) -> (r: bool)
        requires
            self.contiguity_fits(),
        ensures
            r == self.spec_is_contiguous(),
    {
        let type_size = self.tensor_type.type_size();
        if self.nb[0] != type_size {
            return false;
        }
        let n = self.n_dims();
        let mut i: usize = 1;
        while i < n
            invariant
                1 <= i <= n,
                n == spec_n_dims(self.ne@),
                self.contiguity_fits(),
                forall|j: int| 1 <= j < i ==> #[trigger] self.nb@[j] == self.nb@[j - 1] * self.ne@[j - 1],
            decreases n - i,
        {
            assert(self.nb@[i - 1] * self.ne@[i - 1] <= usize::MAX);
            if self.nb[i] != self.nb[i - 1] * self.ne[i - 1] {
                return false;
            }
            i = i + 1;
        }
        true
    }

    /// Check if the tensor is a scalar (single element)
    pub fn is_scalar(&self) -> (r: bool)
        requires
            count_fits(self.ne@),
        ensures
            r == (shape_count(self.ne@) == 1),
    {
        self.n_elements() == 1
    }

    /// Check if the tensor is a vector (1D)
    pub fn is_vector(&self) -> (r: bool)
        ensures
            r == (spec_n_dims(self.ne@) == 1),
    {
        self.n_dims() == 1
    }

    /// Check if the tensor is a matrix (2D)
    pub fn is_matrix(&self) -> (r: bool)
        ensures
            r == (spec_n_dims(self.ne@) == 2),
    {
        self.n_dims() == 2
    }

    /// Set the tensor name (for debugging)
    pub fn set_name(&mut self, name: &str)
        ensures
            final(self).spec_name() == name@,
            final(self).tensor_type == old(self).tensor_type,
            final(self).ne == old(self).ne,
            final(self).nb == old(self).nb,
            final(self).op == old(self).op,
            final(self).op_params == old(self).op_params,
            final(self).flags == old(self).flags,
            final(self).grad == old(self).grad,
            final(self).src == old(self).src,
            final(self).spec_data() == old(self).spec_data(),
            final(self).spec_id() == old(self).spec_id(),
    {
        self.name = String::from_str(name);
    }

    /// Get the tensor name
    pub fn name(&self) -> (r: &str)
        ensures
            r@ == self.spec_name(),
    {
        self.name.as_str()
    }

    /// Set the data location
    pub fn set_data(&mut self, data: DataPtr)
        ensures
            final(self).spec_data() == Some(data),
            final(self).tensor_type == old(self).tensor_type,
            final(self).ne == old(self).ne,
            final(self).nb == old(self).nb,
            final(self).op == old(self).op,
            final(self).op_params == old(self).op_params,
            final(self).flags == old(self).flags,
            final(self).grad == old(self).grad,
            final(self).src == old(self).src,
            final(self).spec_name() == old(self).spec_name(),
            final(self).spec_id() == old(self).spec_id(),
    {
        self.data = Some(data);
    }

    /// Get the data location
    pub fn data(&self) -> (r: Option<DataPtr>)
        ensures
            r == self.spec_data(),
    {
        self.data
    }

    /// The identity the allocating context gave this tensor (0 if none)
    pub fn id(&self) -> (r: usize)
        ensures
            r == self.spec_id(),
    {
        self.id
    }
}

fn clone_boxed(o: &Option<Box<Tensor>>) -> (r: Option<Box<Tensor>>)
    ensures
        r is Some <==> o is Some,
    decreases o,
{
    match o {
        Some(b) => Some(Box::new((**b).clone())),
        None => None,
    }
}

impl Clone for Tensor {
    fn clone(&self) -> (r: Self)
        ensures
            r.meta() == self.meta(),
            r.src@.len() == self.src@.len(),
            r.grad is Some <==> self.grad is Some,
            forall|i: int| 0 <= i < self.src@.len() ==> (#[trigger] r.src@[i] is Some <==> self.src@[i] is Some),
        decreases self,
    {
        let grad = clone_boxed(&self.grad);
        let mut src: Vec<Option<Box<Tensor>>> = Vec::new();
        let n = self.src.len();
        let mut i: usize = 0;
        while i < n
            invariant
                n == self.src@.len(),
                i <= n,
                src@.len() == i,
                forall|j: int| 0 <= j < i ==> (#[trigger] src@[j] is Some <==> self.src@[j] is Some),
            decreases n - i,
        {
            proof {
                assert(decreases_to!(self => self.src));
                assert(decreases_to!(self.src => self.src[i as int]));
            }
            src.push(clone_boxed(&self.src[i]));
            i = i + 1;
        }
        Tensor {
            tensor_type: self.tensor_type,
            ne: self.ne,
            nb: self.nb,
            op: self.op,
            op_params: self.op_params,
            flags: self.flags,
            grad,
            src,
            data: self.data,
            name: self.name.clone(),
            id: self.id,
        }
    }
}

/// Length and a few characters of a name: enough to tell the element type
/// names apart.
spec fn name_key(s: Seq<char>) -> (int, char, char, char, char, char, char) {
    (
        s.len() as int,
        s[0],
        s[1],
        if s.len() >= 3 { s[2] } else { ' ' },
        if s.len() >= 3 { s[s.len() - 3] } else { ' ' },
        s[s.len() - 2],
        s[s.len() - 1],
    )
}

/// The element type whose name has the given key.
spec fn type_with_name_key(k: (int, char, char, char, char, char, char)) -> Option<TensorType> {
    if k == (3int, 'f', '3', '2', 'f', '3', '2') {
        Some(TensorType::F32)
    } else if k == (3int, 'f', '1', '6', 'f', '1', '6') {
        Some(TensorType::F16)
    } else if k == (4int, 'b', 'f', '1', 'f', '1', '6') {
        Some(TensorType::BF16)
    } else if k == (3int, 'f', '6', '4', 'f', '6', '4') {
        Some(TensorType::F64)
    } else if k == (2int, 'i', '8', ' ', ' ', 'i', '8') {
        Some(TensorType::I8)
    } else if k == (3int, 'i', '1', '6', 'i', '1', '6') {
        Some(TensorType::I16)
    } else if k == (3int, 'i', '3', '2', 'i', '3', '2') {
        Some(TensorType::I32)
    } else if k == (3int, 'i', '6', '4', 'i', '6', '4') {
        Some(TensorType::I64)
    } else if k == (4int, 'q', '4', '_', '4', '_', '0') {
        Some(TensorType::Q4_0)
    } else if k == (4int, 'q', '4', '_', '4', '_', '1') {
        Some(TensorType::Q4_1)
    } else if k == (4int, 'q', '5', '_', '5', '_', '0') {
        Some(TensorType::Q5_0)
    } else if k == (4int, 'q', '5', '_', '5', '_', '1') {
        Some(TensorType::Q5_1)
    } else if k == (4int, 'q', '8', '_', '8', '_', '0') {
        Some(TensorType::Q8_0)
    } else if k == (4int, 'q', '8', '_', '8', '_', '1') {
        Some(TensorType::Q8_1)
    } else if k == (4int, 'q', '2', '_', '2', '_', 'k') {
        Some(TensorType::Q2_K)
    } else if k == (4int, 'q', '3', '_', '3', '_', 'k') {
        Some(TensorType::Q3_K)
    } else if k == (4int, 'q', '4', '_', '4', '_', 'k') {
        Some(TensorType::Q4_K)
    } else if k == (4int, 'q', '5', '_', '5', '_', 'k') {
        Some(TensorType::Q5_K)
    } else if k == (4int, 'q', '6', '_', '6', '_', 'k') {
        Some(TensorType::Q6_K)
    } else if k == (4int, 'q', '8', '_', '8', '_', 'k') {
        Some(TensorType::Q8_K)
    } else if k == (7int, 'i', 'q', '2', 'x', 'x', 's') {
        Some(TensorType::IQ2_XXS)
    } else if k == (6int, 'i', 'q', '2', '_', 'x', 's') {
        Some(TensorType::IQ2_XS)
    } else if k == (7int, 'i', 'q', '3', 'x', 'x', 's') {
        Some(TensorType::IQ3_XXS)
    } else if k == (5int, 'i', 'q', '1', '1', '_', 's') {
        Some(TensorType::IQ1_S)
    } else if k == (6int, 'i', 'q', '4', '_', 'n', 'l') {
        Some(TensorType::IQ4_NL)
    } else if k == (5int, 'i', 'q', '3', '3', '_', 's') {
        Some(TensorType::IQ3_S)
    } else if k == (5int, 'i', 'q', '2', '2', '_', 's') {
        Some(TensorType::IQ2_S)
    } else if k == (6int, 'i', 'q', '4', '_', 'x', 's') {
        Some(TensorType::IQ4_XS)
    } else if k == (5int, 'i', 'q', '1', '1', '_', 'm') {
        Some(TensorType::IQ1_M)
    } else if k == (8int, 'q', '4', '_', '4', '_', '4') {
        Some(TensorType::Q4_0_4_4)
    } else if k == (8int, 'q', '4', '_', '4', '_', '8') {
        Some(TensorType::Q4_0_4_8)
    } else if k == (8int, 'q', '4', '_', '8', '_', '8') {
        Some(TensorType::Q4_0_8_8)
    } else if k == (5int, 't', 'q', '1', '1', '_', '0') {
        Some(TensorType::TQ1_0)
    } else if k == (5int, 't', 'q', '2', '2', '_', '0') {
        Some(TensorType::TQ2_0)
    } else if k == (10int, 'i', 'q', '4', '4', '_', '4') {
        Some(TensorType::IQ4_NL_4_4)
    } else if k == (10int, 'i', 'q', '4', '4', '_', '8') {
        Some(TensorType::IQ4_NL_4_8)
    } else if k == (10int, 'i', 'q', '4', '8', '_', '8') {
        Some(TensorType::IQ4_NL_8_8)
    } else {
        None
    }
}

proof fn lemma_name_key(t: TensorType)
    ensures
        type_with_name_key(name_key(t.spec_name())) == Some(t),
{
    match t {
        TensorType::F32 => {
            reveal_strlit("f32");
        },
        TensorType::F16 => {
            reveal_strlit("f16");
        },
        TensorType::BF16 => {
            reveal_strlit("bf16");
        },
        TensorType::F64 => {
            reveal_strlit("f64");
        },
        TensorType::I8 => {
            reveal_strlit("i8");
        },
        TensorType::I16 => {
            reveal_strlit("i16");
        },
        TensorType::I32 => {
            reveal_strlit("i32");
        },
        TensorType::I64 => {
            reveal_strlit("i64");
        },
        TensorType::Q4_0 => {
            reveal_strlit("q4_0");
        },
        TensorType::Q4_1 => {
            reveal_strlit("q4_1");
        },
        TensorType::Q5_0 => {
            reveal_strlit("q5_0");
        },
        TensorType::Q5_1 => {
            reveal_strlit("q5_1");
        },
        TensorType::Q8_0 => {
            reveal_strlit("q8_0");
        },
        TensorType::Q8_1 => {
            reveal_strlit("q8_1");
        },
        TensorType::Q2_K => {
            reveal_strlit("q2_k");
        },
        TensorType::Q3_K => {
            reveal_strlit("q3_k");
        },
        TensorType::Q4_K => {
            reveal_strlit("q4_k");
        },
        TensorType::Q5_K => {
            reveal_strlit("q5_k");
        },
        TensorType::Q6_K => {
            reveal_strlit("q6_k");
        },
        TensorType::Q8_K => {
            reveal_strlit("q8_k");
        },
        TensorType::IQ2_XXS => {
            reveal_strlit("iq2_xxs");
        },
        TensorType::IQ2_XS => {
            reveal_strlit("iq2_xs");
        },
        TensorType::IQ3_XXS => {
            reveal_strlit("iq3_xxs");
        },
        TensorType::IQ1_S => {
            reveal_strlit("iq1_s");
        },
        TensorType::IQ4_NL => {
            reveal_strlit("iq4_nl");
        },
        TensorType::IQ3_S => {
            reveal_strlit("iq3_s");
        },
        TensorType::IQ2_S => {
            reveal_strlit("iq2_s");
        },
        TensorType::IQ4_XS => {
            reveal_strlit("iq4_xs");
        },
        TensorType::IQ1_M => {
            reveal_strlit("iq1_m");
        },
        TensorType::Q4_0_4_4 => {
            reveal_strlit("q4_0_4_4");
        },
        TensorType::Q4_0_4_8 => {
            reveal_strlit("q4_0_4_8");
        },
        TensorType::Q4_0_8_8 => {
            reveal_strlit("q4_0_8_8");
        },
        TensorType::TQ1_0 => {
            reveal_strlit("tq1_0");
        },
        TensorType::TQ2_0 => {
            reveal_strlit("tq2_0");
        },
        TensorType::IQ4_NL_4_4 => {
            reveal_strlit("iq4_nl_4_4");
        },
        TensorType::IQ4_NL_4_8 => {
            reveal_strlit("iq4_nl_4_8");
        },
        TensorType::IQ4_NL_8_8 => {
            reveal_strlit("iq4_nl_8_8");
        },
    }
}

/// Different element types have different names.
pub proof fn lemma_type_names_distinct(t1: TensorType, t2: TensorType)
    requires
        t1 != t2,
    ensures
        t1.spec_name() != t2.spec_name(),
{
    lemma_name_key(t1);
    lemma_name_key(t2);
}

/// A freshly made tensor is contiguous: its strides are those of a row-major
/// layout, and checking them cannot overflow.
pub proof fn lemma_fresh_tensor_is_contiguous(t: Tensor, ty: TensorType, ne: Seq<usize>)
    requires
        ne.len() == 4,
        strides_fit(ty.spec_type_size() as int, ne),
        t.is_fresh(ty, ne),
    ensures
        t.contiguity_fits(),
        t.spec_is_contiguous(),
{
    let ts = ty.spec_type_size() as int;
    assert(0 <= ts * ne[0]) by (nonlinear_arith)
        requires
            0 <= ts,
            0 <= ne[0],
    ;
    assert(0 <= ts * ne[0] * ne[1]) by (nonlinear_arith)
        requires
            0 <= ts * ne[0],
            0 <= ne[1],
    ;
    assert(0 <= ts * ne[0] * ne[1] * ne[2]) by (nonlinear_arith)
        requires
            0 <= ts * ne[0] * ne[1],
            0 <= ne[2],
    ;
    assert(t.nb@[1] == ts * ne[0]);
    assert(t.nb@[2] == ts * ne[0] * ne[1]);
    assert(t.nb@[3] == ts * ne[0] * ne[1] * ne[2]);
}

/// The byte size of a tensor: for a plain type, its elements times the
/// element size; for a quantized type, a whole number of blocks: as many as
/// are needed to hold its elements, the last one possibly partial.
pub proof fn lemma_size_bytes(t: TensorType, ne: Seq<usize>)
    requires
        ne.len() == 4,
    ensures
        !t.spec_is_quantized() ==> spec_size_bytes(t, ne) == shape_count(ne) * t.spec_element_size(),
        t.spec_is_quantized() ==> {
            let bpb = t.spec_bytes_per_block() as int;
            let k = t.spec_block_size() as int;
            let blocks = spec_size_bytes(t, ne) / bpb;
            &&& spec_size_bytes(t, ne) == blocks * bpb
            &&& blocks * k >= shape_count(ne)
            &&& shape_count(ne) == 0 ==> blocks == 0
            &&& shape_count(ne) > 0 ==> (blocks - 1) * k < shape_count(ne)
        },
{
    if t.spec_is_quantized() {
        let n = shape_count(ne);
        let k = t.spec_block_size() as int;
        let bpb = t.spec_bytes_per_block() as int;
        assert(k == 32 || k == 256);
        assert(bpb > 0);
        assert(n >= 0) by (nonlinear_arith)
            requires
                n == ne[0] * ne[1] * ne[2] * ne[3],
                ne[0] >= 0 && ne[1] >= 0 && ne[2] >= 0 && ne[3] >= 0,
        ;
        let blocks = (n + k - 1) / k;
        assert(blocks * k >= n && (n == 0 ==> blocks == 0) && (n > 0 ==> (blocks - 1) * k < n))
            by (nonlinear_arith)
            requires
                k > 0,
                n >= 0,
                blocks == (n + k - 1) / k,
        ;
        assert(spec_size_bytes(t, ne) == blocks * bpb);
        assert((blocks * bpb) / bpb == blocks) by (nonlinear_arith)
            requires
                bpb > 0,
        ;
    }
}

} // verus!
