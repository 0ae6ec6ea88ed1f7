//! Writing GGUF data: the header, metadata and tensor descriptions, padded
//! to the tensor data alignment, then the tensor data.
//!
//! The bytes are collected in memory; storing them is up to the caller.

use vstd::prelude::*;
use vstd::string::StringSliceAdditionalSpecFns;
use vstd::utf8::encode_utf8;
use crate::gguf::bytes::{le_bytes16, le_bytes32, le_bytes64, put_bytes, put_u16, put_u32, put_u64, put_u8};
use crate::gguf::error::{Error, ErrorView};
use crate::gguf::format::{GGUF_DEFAULT_ALIGNMENT, GGUF_MAGIC, GGUF_VERSION};
use crate::gguf::metadata::{MetaView, MetadataValue, MetadataValueType};
use crate::gguf::reader::{TensorInfoView, entries_view, kv_insert, spec_align_offset, store_entry};
use crate::gguf::tensor::TensorInfo;

verus! {

/// A string: its UTF-8 byte length as a `u64`, then the bytes.
pub open spec fn enc_string(s: Seq<char>) -> Seq<u8> {
    le_bytes64(encode_utf8(s).len() as u64) + encode_utf8(s)
}

/// The payload of a value that is not an array.
pub open spec fn enc_payload(v: MetaView) -> Seq<u8> {
    match v {
        MetaView::UInt8(x) => seq![x],
        MetaView::Int8(x) => seq![x as u8],
        MetaView::UInt16(x) => le_bytes16(x),
        MetaView::Int16(x) => le_bytes16(x as u16),
        MetaView::UInt32(x) => le_bytes32(x),
        MetaView::Int32(x) => le_bytes32(x as u32),
        MetaView::Float32(x) => le_bytes32(x),
        MetaView::Bool(x) => seq![if x { 1u8 } else { 0u8 }],
        MetaView::String(s) => enc_string(s),
        MetaView::UInt64(x) => le_bytes64(x),
        MetaView::Int64(x) => le_bytes64(x as u64),
        MetaView::Float64(x) => le_bytes64(x),
        MetaView::Array(..) => Seq::empty(),
    }
}

/// The first `k` array elements, each by its payload; an array element
/// stops the encoding (`false`).
pub open spec fn enc_elems(vals: Seq<MetaView>, k: int) -> (Seq<u8>, bool)
    decreases k,
{
    if k <= 0 {
        (Seq::empty(), true)
    } else {
        let (prev, ok) = enc_elems(vals, k - 1);
        if !ok {
            (prev, false)
        } else if vals[k - 1] is Array {
            (prev, false)
        } else {
            (prev + enc_payload(vals[k - 1]), true)
        }
    }
}

/// A value: its type number, then its payload; an array gives its element
/// type number, its length and its elements.
pub open spec fn enc_value(v: MetaView) -> (Seq<u8>, bool) {
    let tag = le_bytes32(v.value_type().spec_as_u32());
    match v {
        MetaView::Array(at, vals) => {
            let (e, ok) = enc_elems(vals, vals.len() as int);
            (tag + le_bytes32(at.spec_as_u32()) + le_bytes64(vals.len() as u64) + e, ok)
        },
        _ => (tag + enc_payload(v), true),
    }
}

/// The first `k` key-value pairs, stopping at the first value that fails.
pub open spec fn enc_kvs(md: Seq<(Seq<char>, MetaView)>, k: int) -> (Seq<u8>, bool)
    decreases k,
{
    if k <= 0 {
        (Seq::empty(), true)
    } else {
        let (prev, ok) = enc_kvs(md, k - 1);
        if !ok {
            (prev, false)
        } else {
            let (e, ok2) = enc_value(md[k - 1].1);
            (prev + enc_string(md[k - 1].0) + e, ok2)
        }
    }
}

/// The first `k` dimensions.
pub open spec fn enc_dims(d: Seq<u64>, k: int) -> Seq<u8>
    decreases k,
{
    if k <= 0 {
        Seq::empty()
    } else {
        enc_dims(d, k - 1) + le_bytes64(d[k - 1])
    }
}

/// A tensor description: name, dimension count, dimensions, type number, offset.
pub open spec fn enc_tensor(t: TensorInfoView) -> Seq<u8> {
    enc_string(t.name) + le_bytes32(t.n_dims as u32) + enc_dims(t.dimensions, t.dimensions.len() as int)
        + le_bytes32(t.tensor_type.spec_as_u32()) + le_bytes64(t.offset)
}

/// The first `k` tensor descriptions.
pub open spec fn enc_tensors(ts: Seq<TensorInfoView>, k: int) -> Seq<u8>
    decreases k,
{
    if k <= 0 {
        Seq::empty()
    } else {
        enc_tensors(ts, k - 1) + enc_tensor(ts[k - 1])
    }
}

/// The abstract state of a writer.
pub struct WriterView {
    /// Everything written so far
    pub out: Seq<u8>,
    pub metadata: Seq<(Seq<char>, MetaView)>,
    pub tensors: Seq<TensorInfoView>,
    pub alignment: u64,
}

/// The header fields and metadata, then, if every value could be written,
/// the tensor descriptions.
pub open spec fn header_body(w: WriterView) -> (Seq<u8>, bool) {
    let start = le_bytes32(GGUF_MAGIC) + le_bytes32(GGUF_VERSION) + le_bytes64(w.tensors.len() as u64)
        + le_bytes64(w.metadata.len() as u64);
    let (kvs, ok) = enc_kvs(w.metadata, w.metadata.len() as int);
    if !ok {
        (start + kvs, false)
    } else {
        (start + kvs + enc_tensors(w.tensors, w.tensors.len() as int), true)
    }
}

/// The padding bytes bringing `pos` to the next multiple of `alignment`.
pub open spec fn padding(pos: int, alignment: u64) -> Seq<u8> {
    Seq::new((spec_align_offset(pos as u64, alignment) - pos) as nat, |i: int| 0u8)
}

/// Writing the header with everything written so far: the output it leaves
/// and whether it succeeds.
pub open spec fn spec_write_header(w: WriterView) -> (Seq<u8>, Result<(), ErrorView>) {
    let (body, ok) = header_body(w);
    if !ok {
        (w.out + body, Err(ErrorView::InvalidMetadataType(9)))
    } else {
        let pos = (w.out.len() + body.len()) as int;
        (w.out + body + padding(pos, w.alignment), Ok(()))
    }
}

/// The header of `w` can be written without arithmetic overflow.
pub open spec fn header_writable(w: WriterView) -> bool {
    &&& w.alignment != 0
    &&& w.out.len() + header_body(w).0.len() + w.alignment <= u64::MAX
    &&& w.out.len() + header_body(w).0.len() + w.alignment <= usize::MAX
}

pub struct GGUFWriter {
    writer: Vec<u8>,
    metadata: Vec<(String, MetadataValue)>,
    tensors: Vec<TensorInfo>,
    alignment: u64,
}

impl View for GGUFWriter {
    type V = WriterView;

    closed spec fn view(&self) -> WriterView {
        WriterView {
            out: self.writer@,
            metadata: entries_view(self.metadata@),
            tensors: self.tensors@.map_values(|t: TensorInfo| t@),
            alignment: self.alignment,
        }
    }
}

fn write_string(out: &mut Vec<u8>, s: &String)
    ensures
        final(out)@ == old(out)@ + enc_string(s@),
{
    let bytes = s.as_str().as_bytes();
    put_u64(out, bytes.len() as u64);
    put_bytes(out, bytes);
}

/// Writes the payload of a value that is not an array.
fn write_payload(out: &mut Vec<u8>, value: &MetadataValue)
    requires
        !(value@ is Array),
    ensures
        final(out)@ == old(out)@ + enc_payload(value@),
{
    match value {
        MetadataValue::UInt8(v) => put_u8(out, *v),
        MetadataValue::Int8(v) => put_u8(out, *v as u8),
        MetadataValue::UInt16(v) => put_u16(out, *v),
        MetadataValue::Int16(v) => put_u16(out, *v as u16),
        MetadataValue::UInt32(v) => put_u32(out, *v),
        MetadataValue::Int32(v) => put_u32(out, *v as u32),
        MetadataValue::Float32(v) => put_u32(out, *v),
        MetadataValue::Bool(v) => put_u8(
            out,
            if *v {
                1
            } else {
                0
            },
        ),
        MetadataValue::String(v) => write_string(out, v),
        MetadataValue::UInt64(v) => put_u64(out, *v),
        MetadataValue::Int64(v) => put_u64(out, *v as u64),
        MetadataValue::Float64(v) => put_u64(out, *v),
        MetadataValue::Array(_) => {},
    }
}

proof fn lemma_enc_elems_stop(vals: Seq<MetaView>, j: int, k: int)
    requires
        0 <= j <= k,
        !enc_elems(vals, j).1,
    ensures
        enc_elems(vals, k) == enc_elems(vals, j),
    decreases k - j,
{
    if k > j {
        lemma_enc_elems_stop(vals, j, k - 1);
    }
}

fn write_metadata_value(out: &mut Vec<u8>, value: &MetadataValue) -> (r: Result<(), Error>)
    ensures
        final(out)@ == old(out)@ + enc_value(value@).0,
        enc_value(value@).1 <==> r is Ok,
        r matches Err(e) ==> e@ == ErrorView::InvalidMetadataType(9),
{
    put_u32(out, value.value_type().as_u32());
    match value {
        MetadataValue::Array(arr) => {
            put_u32(out, arr.value_type.as_u32());
            put_u64(out, arr.values.len() as u64);
            let ghost base = out@;
            assert(base == old(out)@ + le_bytes32(value@.value_type().spec_as_u32()) + le_bytes32(
                arr.value_type.spec_as_u32(),
            ) + le_bytes64(arr.values@.len() as u64));
            let ghost vals = value@->Array_1;
            assert(vals.len() == arr.values@.len());
            let mut i: usize = 0;
            while i < arr.values.len()
                invariant
                    i <= arr.values@.len(),
                    vals == arr.values@.map_values(
                        |e: MetadataValue| crate::gguf::metadata::shallow_view(e),
                    ),
                    enc_elems(vals, i as int).1,
                    out@ == base + enc_elems(vals, i as int).0,
                    value@ == MetaView::Array(arr.value_type, vals),
                    *value == MetadataValue::Array(*arr),
                    base == old(out)@ + le_bytes32(value@.value_type().spec_as_u32()) + le_bytes32(
                        arr.value_type.spec_as_u32(),
                    ) + le_bytes64(arr.values@.len() as u64),
                decreases arr.values@.len() - i,
            {
                let val = &arr.values[i];
                assert(vals[i as int] == crate::gguf::metadata::shallow_view(*val));
                match val {
                    MetadataValue::Array(_) => {
                        // Nested arrays not supported
                        proof {
                            assert(vals[i as int] is Array);
                            assert(enc_elems(vals, i + 1).0 == enc_elems(vals, i as int).0 && !enc_elems(vals, i + 1).1);
                            lemma_enc_elems_stop(vals, i + 1, vals.len() as int);
                            let ev = enc_elems(vals, vals.len() as int);
                            assert(value@ == MetaView::Array(arr.value_type, vals));
                            assert(enc_value(value@) == (le_bytes32(value@.value_type().spec_as_u32())
                                + le_bytes32(arr.value_type.spec_as_u32()) + le_bytes64(
                                vals.len() as u64,
                            ) + ev.0, ev.1));
                            assert(out@ =~= old(out)@ + enc_value(value@).0);
                        }
                        return Err(Error::InvalidMetadataType(9));
                    },
                    _ => {
                        assert(val@ == vals[i as int]);
                        write_payload(out, val);
                        assert(out@ =~= base + enc_elems(vals, i + 1).0);
                    },
                }
                i = i + 1;
            }
            assert(out@ =~= old(out)@ + enc_value(value@).0);
        },
        _ => {
            write_payload(out, value);
            assert(out@ =~= old(out)@ + enc_value(value@).0);
        },
    }
    Ok(())
}


proof fn lemma_enc_kvs_stop(md: Seq<(Seq<char>, MetaView)>, j: int, k: int)
    requires
        0 <= j <= k,
        !enc_kvs(md, j).1,
    ensures
        enc_kvs(md, k) == enc_kvs(md, j),
    decreases k - j,
{
    if k > j {
        lemma_enc_kvs_stop(md, j, k - 1);
    }
}

fn write_tensor_info(out: &mut Vec<u8>, tensor: &TensorInfo)
    ensures
        final(out)@ == old(out)@ + enc_tensor(tensor@),
{
    write_string(out, &tensor.name);
    put_u32(out, tensor.n_dims as u32);
    let ghost base = out@;
    let mut i: usize = 0;
    while i < tensor.dimensions.len()
        invariant
            i <= tensor.dimensions@.len(),
            out@ == base + enc_dims(tensor.dimensions@, i as int),
        decreases tensor.dimensions@.len() - i,
    {
        put_u64(out, tensor.dimensions[i]);
        assert(out@ =~= base + enc_dims(tensor.dimensions@, i + 1));
        i = i + 1;
    }
    put_u32(out, tensor.tensor_type.as_u32());
    put_u64(out, tensor.offset);
    assert(out@ =~= old(out)@ + enc_tensor(tensor@));
}

impl GGUFWriter {
    /// Create a new GGUF writer with nothing written yet
    pub fn new() -> (r: Self)
        ensures
            r@ == (WriterView {
                out: Seq::empty(),
                metadata: Seq::empty(),
                tensors: Seq::empty(),
                alignment: GGUF_DEFAULT_ALIGNMENT,
            }),
    {
        let r = Self {
            writer: Vec::new(),
            metadata: Vec::new(),
            tensors: Vec::new(),
            alignment: GGUF_DEFAULT_ALIGNMENT,
        };
        assert(r@.metadata =~= Seq::<(Seq<char>, MetaView)>::empty());
        assert(r@.tensors =~= Seq::<TensorInfoView>::empty());
        r
    }

    /// Set alignment for tensor data
    pub fn set_alignment(&mut self, alignment: u64)
        ensures
            final(self)@ == (WriterView { alignment, ..old(self)@ }),
    {
        self.alignment = alignment;
    }

    /// Add metadata key-value pair (replacing the value of an existing key)
    pub fn add_metadata(&mut self, key: String, value: MetadataValue)
        ensures
            final(self)@ == (WriterView {
                metadata: kv_insert(old(self)@.metadata, key@, value@),
                ..old(self)@
            }),
    {
        store_entry(&mut self.metadata, key, value);
    }

    /// Add tensor information
    pub fn add_tensor(&mut self, tensor: TensorInfo)
        ensures
            final(self)@ == (WriterView { tensors: old(self)@.tensors.push(tensor@), ..old(self)@ }),
    {
        let ghost tv = tensor@;
        self.tensors.push(tensor);
        assert(self@.tensors =~= old(self)@.tensors.push(tv));
    }

    /// Write the GGUF file header and metadata
    ///
    /// An array nested in an array cannot be written: writing stops there
    /// with `InvalidMetadataType(9)`, after what was written before it.
    pub fn write_header(&mut self) -> (r: Result<(), Error>)
        requires
            header_writable(old(self)@),
        ensures
            final(self)@ == (WriterView { out: spec_write_header(old(self)@).0, ..old(self)@ }),
            match spec_write_header(old(self)@).1 {
                Ok(()) => r is Ok,
                Err(e) => r matches Err(x) && x@ == e,
            },
    {
        let ghost w = self@;
        // Write magic, version, tensor count and metadata count
        put_u32(&mut self.writer, GGUF_MAGIC);
        put_u32(&mut self.writer, GGUF_VERSION);
        put_u64(&mut self.writer, self.tensors.len() as u64);
        put_u64(&mut self.writer, self.metadata.len() as u64);
        let ghost start = self.writer@;
        assert(self.tensors@.map_values(|t: TensorInfo| t@).len() == self.tensors@.len());
        // Write metadata
        let mut i: usize = 0;
        while i < self.metadata.len()
            invariant
                i <= self.metadata@.len(),
                w == old(self)@,
                header_writable(w),
                w.tensors == self.tensors@.map_values(|t: TensorInfo| t@),
                w.metadata == entries_view(self.metadata@),
                w.alignment == self.alignment,
                start == w.out + le_bytes32(GGUF_MAGIC) + le_bytes32(GGUF_VERSION) + le_bytes64(
                    w.tensors.len() as u64,
                ) + le_bytes64(w.metadata.len() as u64),
                enc_kvs(w.metadata, i as int).1,
                self.writer@ == start + enc_kvs(w.metadata, i as int).0,
            decreases self.metadata@.len() - i,
        {
            let ghost before = self.writer@;
            write_string(&mut self.writer, &self.metadata[i].0);
            let r = write_metadata_value(&mut self.writer, &self.metadata[i].1);
            assert(w.metadata[i as int] == (self.metadata@[i as int].0@, self.metadata@[i as int].1@));
            if r.is_err() {
                proof {
                    lemma_enc_kvs_stop(w.metadata, i + 1, w.metadata.len() as int);
                    assert(self.writer@ =~= w.out + header_body(w).0);
                }
                return r;
            }
            assert(self.writer@ =~= start + enc_kvs(w.metadata, i + 1).0);
            i = i + 1;
        }
        // Write tensor info
        let ghost mid = self.writer@;
        let mut j: usize = 0;
        while j < self.tensors.len()
            invariant
                j <= self.tensors@.len(),
                mid == start + enc_kvs(w.metadata, w.metadata.len() as int).0,
                enc_kvs(w.metadata, w.metadata.len() as int).1,
                w == old(self)@,
                header_writable(w),
                w.tensors == self.tensors@.map_values(|t: TensorInfo| t@),
                w.metadata == entries_view(self.metadata@),
                w.alignment == self.alignment,
                start == w.out + le_bytes32(GGUF_MAGIC) + le_bytes32(GGUF_VERSION) + le_bytes64(
                    w.tensors.len() as u64,
                ) + le_bytes64(w.metadata.len() as u64),
                self.writer@ == mid + enc_tensors(w.tensors, j as int),
            decreases self.tensors@.len() - j,
        {
            write_tensor_info(&mut self.writer, &self.tensors[j]);
            assert(self.writer@ =~= mid + enc_tensors(w.tensors, j + 1));
            j = j + 1;
        }
        assert(self.writer@ =~= w.out + header_body(w).0);
        // Align to tensor data boundary
        let current_pos = self.writer.len() as u64;
        let aligned_pos = align_offset(current_pos, self.alignment);
        let pad = aligned_pos - current_pos;
        let ghost body = self.writer@;
        let mut k: u64 = 0;
        while k < pad
            invariant
                k <= pad,
                self.writer@ == body + Seq::new(k as nat, |i: int| 0u8),
                w == old(self)@,
                w.tensors == self.tensors@.map_values(|t: TensorInfo| t@),
                w.metadata == entries_view(self.metadata@),
                w.alignment == self.alignment,
            decreases pad - k,
        {
            put_u8(&mut self.writer, 0);
            assert(self.writer@ =~= body + Seq::new((k + 1) as nat, |i: int| 0u8));
            k = k + 1;
        }
        assert(self.writer@ =~= spec_write_header(w).0);
        Ok(())
    }

    /// Write tensor data
    pub fn write_tensor_data(&mut self, data: &[u8]) -> (r: Result<(), Error>)
        ensures
            final(self)@ == (WriterView { out: old(self)@.out + data@, ..old(self)@ }),
            r is Ok,
    {
        put_bytes(&mut self.writer, data);
        Ok(())
    }

    /// Everything written so far
    pub fn bytes(&self) -> (r: &[u8])
        ensures
            r@ == self@.out,
    {
        self.writer.as_slice()
    }

    /// Finish writing, giving back everything written
    pub fn finalize(self) -> (r: Result<Vec<u8>, Error>)
        ensures
            r matches Ok(b) && b@ == self@.out,
    {
        Ok(self.writer)
    }
}

/// `offset` rounded up to a multiple of `alignment`.
fn align_offset(offset: u64, alignment: u64) -> (r: u64)
    requires
        alignment > 0,
        offset + alignment <= u64::MAX,
    ensures
        r == spec_align_offset(offset, alignment),
        offset <= r,
{
    proof {
        let x = (offset + alignment - 1) as int;
        let a = alignment as int;
        assert(x / a * a <= x) by (nonlinear_arith)
            requires
                a > 0,
                x >= 0,
        ;
        assert(x / a * a > x - a) by (nonlinear_arith)
            requires
                a > 0,
                x >= 0,
        ;
    }
    (offset + alignment - 1) / alignment * alignment
}
} // verus!
