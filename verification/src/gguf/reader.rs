//! Parsing GGUF data: header, metadata, tensor descriptions and the offset of
//! the aligned tensor data.

use vstd::prelude::*;
use vstd::utf8::{decode_utf8, valid_utf8};
use crate::gguf::bytes::{
    Parsed, get_bytes, get_u16, get_u32, get_u64, get_u8, parsed, take_u16, take_u32, take_u64,
    take_u8,
};
use crate::gguf::error::{Error, ErrorView, res_view};
use crate::gguf::format::{GGUF_DEFAULT_ALIGNMENT, GGUF_MAGIC, GGUFVersion};
use crate::gguf::metadata::{MetaView, MetadataArray, MetadataValue, MetadataValueType, shallow_view};
use crate::gguf::tensor::{
    GGMLType, TensorInfo, dims_product, product_fits_u64,
};

pub use crate::entries::{
    entries_view, find_entry, find_key, kv_insert, lemma_find_key, lookup, store_entry,
};

verus! {

/// A tensor description with its name as text.
pub struct TensorInfoView {
    pub name: Seq<char>,
    pub n_dims: usize,
    pub dimensions: Seq<u64>,
    pub tensor_type: GGMLType,
    pub offset: u64,
}

impl View for TensorInfo {
    type V = TensorInfoView;

    open spec fn view(&self) -> TensorInfoView {
        TensorInfoView {
            name: self.name@,
            n_dims: self.n_dims,
            dimensions: self.dimensions@,
            tensor_type: self.tensor_type,
            offset: self.offset,
        }
    }
}

/// std's `String::from_utf8`: the text that `bytes` encode when they are
/// valid UTF-8, and otherwise the bytes given back.
#[verifier::external_body]
fn utf8_text(bytes: Vec<u8>) -> (r: Result<String, Vec<u8>>)
    ensures
        match r {
            Ok(s) => valid_utf8(bytes@) && s@ == decode_utf8(bytes@),
            Err(b) => !valid_utf8(bytes@) && b@ == bytes@,
        },
{
    String::from_utf8(bytes).map_err(|e| e.into_bytes())
}

/// A string: its byte length as a `u64`, then its UTF-8 bytes.
pub open spec fn get_string(b: Seq<u8>, pos: int) -> Parsed<Seq<char>> {
    match get_u64(b, pos) {
        Err(e) => Err(e),
        Ok((len, p)) => match get_bytes(b, p, len as int) {
            Err(e) => Err(e),
            Ok((bytes, q)) => if valid_utf8(bytes) {
                Ok((decode_utf8(bytes), q))
            } else {
                Err(ErrorView::InvalidString(bytes))
            },
        },
    }
}

pub open spec fn parsed_string(r: Result<(String, usize), Error>) -> Parsed<Seq<char>> {
    match r {
        Ok((s, p)) => Ok((s@, p as int)),
        Err(e) => Err(e@),
    }
}

pub open spec fn parsed_value(r: Result<(MetadataValue, usize), Error>) -> Parsed<MetaView> {
    match r {
        Ok((v, p)) => Ok((v@, p as int)),
        Err(e) => Err(e@),
    }
}

/// The value of a non-array type `t` (whose number is `tnum`) at `pos`.
pub open spec fn get_payload(b: Seq<u8>, pos: int, t: MetadataValueType, tnum: u32) -> Parsed<MetaView> {
    match t {
        MetadataValueType::UInt8 => match get_u8(b, pos) {
            Ok((x, p)) => Ok((MetaView::UInt8(x), p)),
            Err(e) => Err(e),
        },
        MetadataValueType::Int8 => match get_u8(b, pos) {
            Ok((x, p)) => Ok((MetaView::Int8(x as i8), p)),
            Err(e) => Err(e),
        },
        MetadataValueType::UInt16 => match get_u16(b, pos) {
            Ok((x, p)) => Ok((MetaView::UInt16(x), p)),
            Err(e) => Err(e),
        },
        MetadataValueType::Int16 => match get_u16(b, pos) {
            Ok((x, p)) => Ok((MetaView::Int16(x as i16), p)),
            Err(e) => Err(e),
        },
        MetadataValueType::UInt32 => match get_u32(b, pos) {
            Ok((x, p)) => Ok((MetaView::UInt32(x), p)),
            Err(e) => Err(e),
        },
        MetadataValueType::Int32 => match get_u32(b, pos) {
            Ok((x, p)) => Ok((MetaView::Int32(x as i32), p)),
            Err(e) => Err(e),
        },
        MetadataValueType::Float32 => match get_u32(b, pos) {
            Ok((x, p)) => Ok((MetaView::Float32(x), p)),
            Err(e) => Err(e),
        },
        MetadataValueType::Bool => match get_u8(b, pos) {
            Ok((x, p)) => Ok((MetaView::Bool(x != 0), p)),
            Err(e) => Err(e),
        },
        MetadataValueType::String => match get_string(b, pos) {
            Ok((s, p)) => Ok((MetaView::String(s), p)),
            Err(e) => Err(e),
        },
        MetadataValueType::UInt64 => match get_u64(b, pos) {
            Ok((x, p)) => Ok((MetaView::UInt64(x), p)),
            Err(e) => Err(e),
        },
        MetadataValueType::Int64 => match get_u64(b, pos) {
            Ok((x, p)) => Ok((MetaView::Int64(x as i64), p)),
            Err(e) => Err(e),
        },
        MetadataValueType::Float64 => match get_u64(b, pos) {
            Ok((x, p)) => Ok((MetaView::Float64(x), p)),
            Err(e) => Err(e),
        },
        MetadataValueType::Array => Err(ErrorView::InvalidMetadataType(tnum)),
    }
}

/// `k` array elements of type `t` from `pos`.
pub open spec fn get_elems(b: Seq<u8>, pos: int, t: MetadataValueType, tnum: u32, k: nat) -> Parsed<
    Seq<MetaView>,
>
    decreases k,
{
    if k == 0 {
        Ok((Seq::empty(), pos))
    } else {
        match get_elems(b, pos, t, tnum, (k - 1) as nat) {
            Err(e) => Err(e),
            Ok((s, q)) => match get_payload(b, q, t, tnum) {
                Err(e) => Err(e),
                Ok((v, q2)) => Ok((s.push(v), q2)),
            },
        }
    }
}

/// An array: element type number, count, then the elements.
pub open spec fn get_array(b: Seq<u8>, pos: int) -> Parsed<MetaView> {
    match get_u32(b, pos) {
        Err(e) => Err(e),
        Ok((anum, p1)) => match MetadataValueType::spec_from_u32(anum) {
            None => Err(ErrorView::InvalidMetadataType(anum)),
            Some(at) => match get_u64(b, p1) {
                Err(e) => Err(e),
                Ok((len, p2)) => match get_elems(b, p2, at, anum, len as nat) {
                    Err(e) => Err(e),
                    Ok((vals, p3)) => Ok((MetaView::Array(at, vals), p3)),
                },
            },
        },
    }
}

/// A metadata value: its type number, then its payload.
pub open spec fn get_value(b: Seq<u8>, pos: int) -> Parsed<MetaView> {
    match get_u32(b, pos) {
        Err(e) => Err(e),
        Ok((tnum, p)) => match MetadataValueType::spec_from_u32(tnum) {
            None => Err(ErrorView::InvalidMetadataType(tnum)),
            Some(t) => if t is Array {
                get_array(b, p)
            } else {
                get_payload(b, p, t, tnum)
            },
        },
    }
}

/// `k` key-value pairs from `pos`, stored into `acc` in turn.
pub open spec fn get_kvs(b: Seq<u8>, pos: int, k: nat) -> Parsed<Seq<(Seq<char>, MetaView)>>
    decreases k,
{
    if k == 0 {
        Ok((Seq::empty(), pos))
    } else {
        match get_kvs(b, pos, (k - 1) as nat) {
            Err(e) => Err(e),
            Ok((acc, q)) => match get_string(b, q) {
                Err(e) => Err(e),
                Ok((key, q1)) => match get_value(b, q1) {
                    Err(e) => Err(e),
                    Ok((v, q2)) => Ok((kv_insert(acc, key, v), q2)),
                },
            },
        }
    }
}

/// `k` dimensions from `pos`.
pub open spec fn get_dims(b: Seq<u8>, pos: int, k: nat) -> Parsed<Seq<u64>>
    decreases k,
{
    if k == 0 {
        Ok((Seq::empty(), pos))
    } else {
        match get_dims(b, pos, (k - 1) as nat) {
            Err(e) => Err(e),
            Ok((s, q)) => match get_u64(b, q) {
                Err(e) => Err(e),
                Ok((d, q2)) => Ok((s.push(d), q2)),
            },
        }
    }
}

/// A tensor description: name, dimension count, dimensions, type number, offset.
pub open spec fn get_tensor_info(b: Seq<u8>, pos: int) -> Parsed<TensorInfoView> {
    match get_string(b, pos) {
        Err(e) => Err(e),
        Ok((name, p1)) => match get_u32(b, p1) {
            Err(e) => Err(e),
            Ok((nd, p2)) => match get_dims(b, p2, nd as nat) {
                Err(e) => Err(e),
                Ok((dims, p3)) => match get_u32(b, p3) {
                    Err(e) => Err(e),
                    Ok((tnum, p4)) => match GGMLType::spec_from_u32(tnum) {
                        None => Err(ErrorView::InvalidTensorType(tnum)),
                        Some(t) => match get_u64(b, p4) {
                            Err(e) => Err(e),
                            Ok((off, p5)) => Ok(
                                (
                                    TensorInfoView {
                                        name,
                                        n_dims: dims.len() as usize,
                                        dimensions: dims,
                                        tensor_type: t,
                                        offset: off,
                                    },
                                    p5,
                                ),
                            ),
                        },
                    },
                },
            },
        },
    }
}

/// `k` tensor descriptions from `pos`, stored by name in turn.
pub open spec fn get_infos(b: Seq<u8>, pos: int, k: nat) -> Parsed<Seq<(Seq<char>, TensorInfoView)>>
    decreases k,
{
    if k == 0 {
        Ok((Seq::empty(), pos))
    } else {
        match get_infos(b, pos, (k - 1) as nat) {
            Err(e) => Err(e),
            Ok((acc, q)) => match get_tensor_info(b, q) {
                Err(e) => Err(e),
                Ok((info, q1)) => Ok((kv_insert(acc, info.name, info), q1)),
            },
        }
    }
}

/// `offset` rounded up to a multiple of `alignment`.
pub open spec fn spec_align_offset(offset: u64, alignment: u64) -> int {
    (offset + alignment - 1) / (alignment as int) * alignment
}

/// The alignment a file declares under "general.alignment" as a 32-bit
/// value, or the default.
pub open spec fn declared_alignment(md: Seq<(Seq<char>, MetaView)>) -> u64 {
    let i = find_key(md, "general.alignment"@);
    if i >= 0 && md[i].1 is UInt32 {
        md[i].1->UInt32_0 as u64
    } else {
        GGUF_DEFAULT_ALIGNMENT
    }
}

/// The abstract content of a parsed file.
pub struct ReaderView {
    pub version: GGUFVersion,
    pub tensor_count: u64,
    pub metadata_kv_count: u64,
    pub metadata: Seq<(Seq<char>, MetaView)>,
    pub tensors: Seq<(Seq<char>, TensorInfoView)>,
    pub alignment: u64,
    pub data_offset: u64,
    pub data: Seq<u8>,
}

/// Parsing a whole file: magic, version, counts, metadata, tensor
/// descriptions, then the tensor data from the next aligned offset.
pub open spec fn parse_gguf(b: Seq<u8>) -> Result<ReaderView, ErrorView> {
    match get_u32(b, 0) {
        Err(e) => Err(e),
        Ok((magic, p1)) => if magic != GGUF_MAGIC {
            Err(ErrorView::InvalidMagic { expected: GGUF_MAGIC, got: magic })
        } else {
            match get_u32(b, p1) {
                Err(e) => Err(e),
                Ok((vnum, p2)) => match GGUFVersion::spec_from_u32(vnum) {
                    None => Err(ErrorView::UnsupportedVersion(vnum)),
                    Some(version) => match get_u64(b, p2) {
                        Err(e) => Err(e),
                        Ok((tc, p3)) => match get_u64(b, p3) {
                            Err(e) => Err(e),
                            Ok((kvc, p4)) => match get_kvs(b, p4, kvc as nat) {
                                Err(e) => Err(e),
                                Ok((md, p5)) => {
                                    let alignment = declared_alignment(md);
                                    match get_infos(b, p5, tc as nat) {
                                        Err(e) => Err(e),
                                        Ok((infos, p6)) => if alignment == 0 {
                                            Err(
                                                ErrorView::AlignmentError {
                                                    offset: p6 as u64,
                                                    alignment: 0,
                                                },
                                            )
                                        } else {
                                            Ok(
                                                ReaderView {
                                                    version,
                                                    tensor_count: tc,
                                                    metadata_kv_count: kvc,
                                                    metadata: md,
                                                    tensors: infos,
                                                    alignment,
                                                    data_offset: spec_align_offset(
                                                        p6 as u64,
                                                        alignment,
                                                    ) as u64,
                                                    data: b,
                                                },
                                            )
                                        },
                                    }
                                },
                            },
                        },
                    },
                },
            }
        },
    }
}



fn read_string(b: &[u8], pos: usize) -> (r: Result<(String, usize), Error>)
    ensures
        r matches Ok((_, p)) ==> p <= b@.len(),
        parsed_string(r) == get_string(b@, pos as int),
{
    let (len, p) = match take_u64(b, pos) {
        Ok(x) => x,
        Err(e) => {
            return Err(e);
        },
    };
    let rem: u64 = (b.len() - p) as u64;
    if rem < len {
        return Err(Error::UnexpectedEof);
    }
    let n = len as usize;
    let mut bytes: Vec<u8> = Vec::new();
    crate::gguf::bytes::put_bytes(&mut bytes, vstd::slice::slice_subrange(b, p, p + n));
    assert(bytes@ =~= b@.subrange(p as int, p + n));
    match utf8_text(bytes) {
        Ok(s) => Ok((s, p + n)),
        Err(raw) => Err(Error::InvalidString(raw)),
    }
}

fn read_payload(b: &[u8], pos: usize, t: MetadataValueType, tnum: u32) -> (r: Result<
    (MetadataValue, usize),
    Error,
>)
    ensures
        r matches Ok((_, p)) ==> p <= b@.len(),
        parsed_value(r) == get_payload(b@, pos as int, t, tnum),
        r matches Ok((v, _)) ==> v@ == shallow_view(v),
{
    match t {
        MetadataValueType::UInt8 => match take_u8(b, pos) {
            Ok((x, p)) => Ok((MetadataValue::UInt8(x), p)),
            Err(e) => Err(e),
        },
        MetadataValueType::Int8 => match take_u8(b, pos) {
            Ok((x, p)) => Ok((MetadataValue::Int8(x as i8), p)),
            Err(e) => Err(e),
        },
        MetadataValueType::UInt16 => match take_u16(b, pos) {
            Ok((x, p)) => Ok((MetadataValue::UInt16(x), p)),
            Err(e) => Err(e),
        },
        MetadataValueType::Int16 => match take_u16(b, pos) {
            Ok((x, p)) => Ok((MetadataValue::Int16(x as i16), p)),
            Err(e) => Err(e),
        },
        MetadataValueType::UInt32 => match take_u32(b, pos) {
            Ok((x, p)) => Ok((MetadataValue::UInt32(x), p)),
            Err(e) => Err(e),
        },
        MetadataValueType::Int32 => match take_u32(b, pos) {
            Ok((x, p)) => Ok((MetadataValue::Int32(x as i32), p)),
            Err(e) => Err(e),
        },
        MetadataValueType::Float32 => match take_u32(b, pos) {
            Ok((x, p)) => Ok((MetadataValue::Float32(x), p)),
            Err(e) => Err(e),
        },
        MetadataValueType::Bool => match take_u8(b, pos) {
            Ok((x, p)) => Ok((MetadataValue::Bool(x != 0), p)),
            Err(e) => Err(e),
        },
        MetadataValueType::UInt64 => match take_u64(b, pos) {
            Ok((x, p)) => Ok((MetadataValue::UInt64(x), p)),
            Err(e) => Err(e),
        },
        MetadataValueType::Int64 => match take_u64(b, pos) {
            Ok((x, p)) => Ok((MetadataValue::Int64(x as i64), p)),
            Err(e) => Err(e),
        },
        MetadataValueType::Float64 => match take_u64(b, pos) {
            Ok((x, p)) => Ok((MetadataValue::Float64(x), p)),
            Err(e) => Err(e),
        },
        MetadataValueType::String => match read_string(b, pos) {
            Ok((x, p)) => Ok((MetadataValue::String(x), p)),
            Err(e) => Err(e),
        },
        MetadataValueType::Array => Err(Error::InvalidMetadataType(tnum)),
    }
}

fn read_array(b: &[u8], pos: usize) -> (r: Result<(MetadataValue, usize), Error>)
    ensures
        r matches Ok((_, p)) ==> p <= b@.len(),
        parsed_value(r) == get_array(b@, pos as int),
{
    let (anum, p1) = match take_u32(b, pos) {
        Ok(x) => x,
        Err(e) => {
            return Err(e);
        },
    };
    let at = match MetadataValueType::from_u32(anum) {
        Ok(t) => t,
        Err(e) => {
            return Err(e);
        },
    };
    let (len, p2) = match take_u64(b, p1) {
        Ok(x) => x,
        Err(e) => {
            return Err(e);
        },
    };
    let mut values: Vec<MetadataValue> = Vec::new();
    assert(values@.map_values(|e: MetadataValue| shallow_view(e)) =~= Seq::<MetaView>::empty());
    let mut q = p2;
    let mut i: u64 = 0;
    while i < len
        invariant
            i <= len,
            get_array(b@, pos as int) == match get_elems(b@, p2 as int, at, anum, len as nat) {
                Err(e) => Err(e),
                Ok((vals, p3)) => Ok((MetaView::Array(at, vals), p3)),
            },
            q <= b@.len(),
            get_elems(b@, p2 as int, at, anum, i as nat) == Ok::<(Seq<MetaView>, int), ErrorView>(
                (values@.map_values(|e: MetadataValue| shallow_view(e)), q as int),
            ),
        decreases len - i,
    {
        let (v, q2) = match read_payload(b, q, at, anum) {
            Ok(x) => x,
            Err(e) => {
                proof {
                    assert(get_elems(b@, p2 as int, at, anum, (i + 1) as nat) is Err);
                    lemma_elems_stop(b@, p2 as int, at, anum, (i + 1) as nat, len as nat);
                }
                return Err(e);
            },
        };
        let ghost before = values@;
        values.push(v);
        assert(values@.map_values(|e: MetadataValue| shallow_view(e)) =~= before.map_values(
            |e: MetadataValue| shallow_view(e),
        ).push(v@));
        q = q2;
        i = i + 1;
    }
    Ok((MetadataValue::Array(MetadataArray { value_type: at, values }), q))
}

proof fn lemma_elems_stop(b: Seq<u8>, pos: int, t: MetadataValueType, tnum: u32, j: nat, k: nat)
    requires
        j <= k,
        get_elems(b, pos, t, tnum, j) is Err,
    ensures
        get_elems(b, pos, t, tnum, k) == get_elems(b, pos, t, tnum, j),
    decreases k - j,
{
    if k > j {
        lemma_elems_stop(b, pos, t, tnum, j, (k - 1) as nat);
    }
}

fn read_value(b: &[u8], pos: usize) -> (r: Result<(MetadataValue, usize), Error>)
    ensures
        r matches Ok((_, p)) ==> p <= b@.len(),
        parsed_value(r) == get_value(b@, pos as int),
{
    let (tnum, p) = match take_u32(b, pos) {
        Ok(x) => x,
        Err(e) => {
            return Err(e);
        },
    };
    let t = match MetadataValueType::from_u32(tnum) {
        Ok(t) => t,
        Err(e) => {
            return Err(e);
        },
    };
    match t {
        MetadataValueType::Array => read_array(b, p),
        _ => read_payload(b, p, t, tnum),
    }
}

pub open spec fn parsed_kvs(r: Result<(Vec<(String, MetadataValue)>, usize), Error>) -> Parsed<
    Seq<(Seq<char>, MetaView)>,
> {
    match r {
        Ok((v, p)) => Ok((entries_view(v@), p as int)),
        Err(e) => Err(e@),
    }
}

proof fn lemma_kvs_stop(b: Seq<u8>, pos: int, j: nat, k: nat)
    requires
        j <= k,
        get_kvs(b, pos, j) is Err,
    ensures
        get_kvs(b, pos, k) == get_kvs(b, pos, j),
    decreases k - j,
{
    if k > j {
        lemma_kvs_stop(b, pos, j, (k - 1) as nat);
    }
}

fn read_kvs(b: &[u8], pos: usize, count: u64) -> (r: Result<(Vec<(String, MetadataValue)>, usize), Error>)
    requires
        pos <= b@.len(),
    ensures
        r matches Ok((_, p)) ==> p <= b@.len(),
        parsed_kvs(r) == get_kvs(b@, pos as int, count as nat),
{
    let mut metadata: Vec<(String, MetadataValue)> = Vec::new();
    assert(entries_view(metadata@) =~= Seq::<(Seq<char>, MetaView)>::empty());
    let mut q = pos;
    let mut i: u64 = 0;
    while i < count
        invariant
            i <= count,
            q <= b@.len(),
            get_kvs(b@, pos as int, i as nat) == Ok::<(Seq<(Seq<char>, MetaView)>, int), ErrorView>(
                (entries_view(metadata@), q as int),
            ),
        decreases count - i,
    {
        let (key, q1) = match read_string(b, q) {
            Ok(x) => x,
            Err(e) => {
                proof {
                    assert(get_kvs(b@, pos as int, (i + 1) as nat) is Err);
                    lemma_kvs_stop(b@, pos as int, (i + 1) as nat, count as nat);
                }
                return Err(e);
            },
        };
        let (value, q2) = match read_value(b, q1) {
            Ok(x) => x,
            Err(e) => {
                proof {
                    assert(get_kvs(b@, pos as int, (i + 1) as nat) is Err);
                    lemma_kvs_stop(b@, pos as int, (i + 1) as nat, count as nat);
                }
                return Err(e);
            },
        };
        store_entry(&mut metadata, key, value);
        q = q2;
        i = i + 1;
    }
    Ok((metadata, q))
}

proof fn lemma_dims_stop(b: Seq<u8>, pos: int, j: nat, k: nat)
    requires
        j <= k,
        get_dims(b, pos, j) is Err,
    ensures
        get_dims(b, pos, k) == get_dims(b, pos, j),
    decreases k - j,
{
    if k > j {
        lemma_dims_stop(b, pos, j, (k - 1) as nat);
    }
}

fn read_dims(b: &[u8], pos: usize, count: u32) -> (r: Result<(Vec<u64>, usize), Error>)
    requires
        pos <= b@.len(),
    ensures
        r matches Ok((_, p)) ==> p <= b@.len(),
        match r {
            Ok((v, p)) => get_dims(b@, pos as int, count as nat) == Ok::<(Seq<u64>, int), ErrorView>(
                (v@, p as int),
            ),
            Err(e) => get_dims(b@, pos as int, count as nat) == Err::<(Seq<u64>, int), ErrorView>(
                e@,
            ),
        },
{
    let mut dims: Vec<u64> = Vec::new();
    let mut q = pos;
    let mut i: u32 = 0;
    while i < count
        invariant
            i <= count,
            q <= b@.len(),
            get_dims(b@, pos as int, i as nat) == Ok::<(Seq<u64>, int), ErrorView>((dims@, q as int)),
        decreases count - i,
    {
        let (d, q2) = match take_u64(b, q) {
            Ok(x) => x,
            Err(e) => {
                proof {
                    assert(get_dims(b@, pos as int, (i + 1) as nat) is Err);
                    lemma_dims_stop(b@, pos as int, (i + 1) as nat, count as nat);
                }
                return Err(e);
            },
        };
        dims.push(d);
        q = q2;
        i = i + 1;
    }
    Ok((dims, q))
}

pub open spec fn parsed_info(r: Result<(TensorInfo, usize), Error>) -> Parsed<TensorInfoView> {
    match r {
        Ok((v, p)) => Ok((v@, p as int)),
        Err(e) => Err(e@),
    }
}

fn read_tensor_info(b: &[u8], pos: usize) -> (r: Result<(TensorInfo, usize), Error>)
    ensures
        r matches Ok((_, p)) ==> p <= b@.len(),
        parsed_info(r) == get_tensor_info(b@, pos as int),
{
    let (name, p1) = match read_string(b, pos) {
        Ok(x) => x,
        Err(e) => {
            return Err(e);
        },
    };
    let (n_dims, p2) = match take_u32(b, p1) {
        Ok(x) => x,
        Err(e) => {
            return Err(e);
        },
    };
    let (dimensions, p3) = match read_dims(b, p2, n_dims) {
        Ok(x) => x,
        Err(e) => {
            return Err(e);
        },
    };
    let (type_num, p4) = match take_u32(b, p3) {
        Ok(x) => x,
        Err(e) => {
            return Err(e);
        },
    };
    let tensor_type = match GGMLType::from_u32(type_num) {
        Ok(t) => t,
        Err(e) => {
            return Err(e);
        },
    };
    let (offset, p5) = match take_u64(b, p4) {
        Ok(x) => x,
        Err(e) => {
            return Err(e);
        },
    };
    Ok((TensorInfo::new(name, dimensions, tensor_type, offset), p5))
}

pub open spec fn parsed_infos(r: Result<(Vec<(String, TensorInfo)>, usize), Error>) -> Parsed<
    Seq<(Seq<char>, TensorInfoView)>,
> {
    match r {
        Ok((v, p)) => Ok((entries_view(v@), p as int)),
        Err(e) => Err(e@),
    }
}

proof fn lemma_infos_stop(b: Seq<u8>, pos: int, j: nat, k: nat)
    requires
        j <= k,
        get_infos(b, pos, j) is Err,
    ensures
        get_infos(b, pos, k) == get_infos(b, pos, j),
    decreases k - j,
{
    if k > j {
        lemma_infos_stop(b, pos, j, (k - 1) as nat);
    }
}

fn read_infos(b: &[u8], pos: usize, count: u64) -> (r: Result<(Vec<(String, TensorInfo)>, usize), Error>)
    requires
        pos <= b@.len(),
    ensures
        r matches Ok((_, p)) ==> p <= b@.len(),
        parsed_infos(r) == get_infos(b@, pos as int, count as nat),
{
    let mut tensors: Vec<(String, TensorInfo)> = Vec::new();
    assert(entries_view(tensors@) =~= Seq::<(Seq<char>, TensorInfoView)>::empty());
    let mut q = pos;
    let mut i: u64 = 0;
    while i < count
        invariant
            i <= count,
            q <= b@.len(),
            get_infos(b@, pos as int, i as nat) == Ok::<(Seq<(Seq<char>, TensorInfoView)>, int), ErrorView>(
                (entries_view(tensors@), q as int),
            ),
        decreases count - i,
    {
        let (info, q1) = match read_tensor_info(b, q) {
            Ok(x) => x,
            Err(e) => {
                proof {
                    assert(get_infos(b@, pos as int, (i + 1) as nat) is Err);
                    lemma_infos_stop(b@, pos as int, (i + 1) as nat, count as nat);
                }
                return Err(e);
            },
        };
        let name = info.name.clone();
        store_entry(&mut tensors, name, info);
        q = q1;
        i = i + 1;
    }
    Ok((tensors, q))
}


/// Where the data of tensor `info` starts and how long it is are computable
/// without overflow.
pub open spec fn data_range_computable(data_offset: u64, info: TensorInfoView) -> bool {
    let n = dims_product(info.dimensions);
    &&& data_offset + info.offset <= usize::MAX
    &&& product_fits_u64(info.dimensions)
    &&& n <= usize::MAX
    &&& info.tensor_type.size_computable(n)
    &&& data_offset + info.offset + info.tensor_type.spec_tensor_size(n) <= usize::MAX
}

/// The data of the tensor named `name`.
pub open spec fn spec_tensor_data(v: ReaderView, name: Seq<char>) -> Result<Seq<u8>, ErrorView> {
    match lookup(v.tensors, name) {
        None => Err(ErrorView::TensorNotFound(name)),
        Some(info) => {
            let start = v.data_offset + info.offset;
            let end = start + info.tensor_type.spec_tensor_size(dims_product(info.dimensions));
            if end > v.data.len() {
                Err(ErrorView::FileTooSmall { expected: end as u64, got: v.data.len() as u64 })
            } else {
                Ok(v.data.subrange(start, end))
            }
        },
    }
}

pub struct GGUFReader {
    version: GGUFVersion,
    tensor_count: u64,
    metadata_kv_count: u64,
    metadata: Vec<(String, MetadataValue)>,
    tensors: Vec<(String, TensorInfo)>,
    alignment: u64,
    data_offset: u64,
    data: Vec<u8>,
}

impl View for GGUFReader {
    type V = ReaderView;

    closed spec fn view(&self) -> ReaderView {
        ReaderView {
            version: self.version,
            tensor_count: self.tensor_count,
            metadata_kv_count: self.metadata_kv_count,
            metadata: entries_view(self.metadata@),
            tensors: entries_view(self.tensors@),
            alignment: self.alignment,
            data_offset: self.data_offset,
            data: self.data@,
        }
    }
}

impl GGUFReader {
    /// Parse GGUF data held in memory (the contents of a file)
    ///
    /// A file that declares an alignment of 0 is reported as an
    /// `AlignmentError`, as no offset can be aligned to it.
    pub fn from_bytes(data: Vec<u8>) -> (r: Result<Self, Error>)
        requires
            data@.len() <= isize::MAX,
        ensures
            match parse_gguf(data@) {
                Ok(v) => r matches Ok(rd) && rd@ == v,
                Err(e) => r matches Err(x) && x@ == e,
            },
    {
        let b = data.as_slice();
        // Read header
        let (magic, p1) = match take_u32(b, 0) {
            Ok(x) => x,
            Err(e) => {
                return Err(e);
            },
        };
        if magic != GGUF_MAGIC {
            return Err(Error::InvalidMagic { expected: GGUF_MAGIC, got: magic });
        }
        let (version_num, p2) = match take_u32(b, p1) {
            Ok(x) => x,
            Err(e) => {
                return Err(e);
            },
        };
        let version = match GGUFVersion::from_u32(version_num) {
            Some(v) => v,
            None => {
                return Err(Error::UnsupportedVersion(version_num));
            },
        };
        let (tensor_count, p3) = match take_u64(b, p2) {
            Ok(x) => x,
            Err(e) => {
                return Err(e);
            },
        };
        let (metadata_kv_count, p4) = match take_u64(b, p3) {
            Ok(x) => x,
            Err(e) => {
                return Err(e);
            },
        };
        // Read metadata
        let (metadata, p5) = match read_kvs(b, p4, metadata_kv_count) {
            Ok(x) => x,
            Err(e) => {
                return Err(e);
            },
        };
        // Get alignment from metadata or use default
        let alignment = alignment_of(&metadata);
        // Read tensor info
        let (tensors, p6) = match read_infos(b, p5, tensor_count) {
            Ok(x) => x,
            Err(e) => {
                return Err(e);
            },
        };
        let data_offset = p6 as u64;
        if alignment == 0 {
            return Err(Error::AlignmentError { offset: data_offset, alignment: 0 });
        }
        // Align data offset
        let aligned_offset = Self::align_offset(data_offset, alignment);
        Ok(Self {
            version,
            tensor_count,
            metadata_kv_count,
            metadata,
            tensors,
            alignment,
            data_offset: aligned_offset,
            data,
        })
    }

    /// `offset` rounded up to a multiple of `alignment`
    pub fn align_offset(offset: u64, alignment: u64) -> (r: u64)
        requires
            alignment > 0,
            offset + alignment <= u64::MAX,
        ensures
            r == spec_align_offset(offset, alignment),
    {
        proof {
            let x = (offset + alignment - 1) as int;
            let a = alignment as int;
            assert(x / a * a <= x) by (nonlinear_arith)
                requires
                    a > 0,
                    x >= 0,
            ;
            assert(x / a * a >= 0) by (nonlinear_arith)
                requires
                    a > 0,
                    x >= 0,
            ;
        }
        (offset + alignment - 1) / alignment * alignment
    }

    /// Get the GGUF version
    pub fn version(&self) -> (r: GGUFVersion)
        ensures
            r == self@.version,
    {
        self.version
    }

    /// Get the number of tensors
    pub fn tensor_count(&self) -> (r: u64)
        ensures
            r == self@.tensor_count,
    {
        self.tensor_count
    }

    /// Get metadata
    pub fn metadata(&self) -> (r: &[(String, MetadataValue)])
        ensures
            entries_view(r@) == self@.metadata,
    {
        self.metadata.as_slice()
    }

    /// Get a specific metadata value
    pub fn get_metadata(&self, key: &str) -> (r: Option<&MetadataValue>)
        ensures
            match lookup(self@.metadata, key@) {
                Some(v) => r matches Some(x) && x@ == v,
                None => r is None,
            },
    {
        let k = String::from_str(key);
        proof {
            lemma_find_key(self@.metadata, key@);
        }
        match find_entry(&self.metadata, &k) {
            Some(i) => Some(&self.metadata[i].1),
            None => None,
        }
    }

    /// Get tensor information
    pub fn get_tensor_info(&self, name: &str) -> (r: Option<&TensorInfo>)
        ensures
            match lookup(self@.tensors, name@) {
                Some(v) => r matches Some(x) && x@ == v,
                None => r is None,
            },
    {
        let k = String::from_str(name);
        proof {
            lemma_find_key(self@.tensors, name@);
        }
        match find_entry(&self.tensors, &k) {
            Some(i) => Some(&self.tensors[i].1),
            None => None,
        }
    }

    /// Get all tensor names
    pub fn tensor_names(&self) -> (r: Vec<&str>)
        ensures
            r@.len() == self@.tensors.len(),
            forall|i: int| 0 <= i < r@.len() ==> (#[trigger] r@[i])@ == self@.tensors[i].0,
    {
        let mut names: Vec<&str> = Vec::new();
        let mut i: usize = 0;
        while i < self.tensors.len()
            invariant
                i <= self.tensors@.len(),
                names@.len() == i,
                forall|j: int| 0 <= j < i ==> (#[trigger] names@[j])@ == self@.tensors[j].0,
            decreases self.tensors@.len() - i,
        {
            names.push(self.tensors[i].0.as_str());
            i = i + 1;
        }
        names
    }

    /// Whether the byte range of the tensor named `name` can be computed
    /// without overflow, as `get_tensor_data` needs (true of a name that
    /// names no tensor, which it reports as not found)
    pub fn tensor_data_computable(&self, name: &str) -> (r: bool)
        ensures
            r == (lookup(self@.tensors, name@) matches Some(info) ==> data_range_computable(
                self@.data_offset,
                info,
            )),
    {
        let k = String::from_str(name);
        proof {
            lemma_find_key(self@.tensors, name@);
        }
        let info = match find_entry(&self.tensors, &k) {
            Some(i) => &self.tensors[i].1,
            None => {
                return true;
            },
        };
        let d = &info.dimensions;
        let ghost gi = lookup(self@.tensors, name@)->Some_0;
        assert(lookup(self@.tensors, name@) == Some(gi) && gi.dimensions == d@);
        let mut p: u64 = 1;
        let mut i: usize = 0;
        assert(d@.take(0) =~= Seq::<u64>::empty());
        while i < d.len()
            invariant
                lookup(self@.tensors, name@) == Some(gi),
                gi.dimensions == d@,
                i <= d@.len(),
                p == dims_product(d@.take(i as int)),
                forall|j: int| 0 <= j <= i ==> #[trigger] dims_product(d@.take(j)) <= u64::MAX,
            decreases d@.len() - i,
        {
            assert(d@.take(i + 1).drop_last() =~= d@.take(i as int));
            match p.checked_mul(d[i]) {
                Some(q) => {
                    p = q;
                },
                None => {
                    assert(dims_product(d@.take(i + 1)) == p * d@[i as int]);
                    assert(dims_product(d@.take(i + 1)) > u64::MAX);
                    assert(!product_fits_u64(d@));
                    return false;
                },
            }
            i = i + 1;
        }
        assert(d@.take(i as int) =~= d@);
        assert(product_fits_u64(d@));
        if p > usize::MAX as u64 {
            return false;
        }
        let n = p as usize;
        let bs = info.tensor_type.block_size();
        if n > usize::MAX - bs {
            return false;
        }
        let bpb = info.tensor_type.bytes_per_block();
        let n_blocks = (n + bs - 1) / bs;
        let size = match n_blocks.checked_mul(bpb) {
            Some(x) => x,
            None => {
                return false;
            },
        };
        let start = match self.data_offset.checked_add(info.offset) {
            Some(x) => x,
            None => {
                return false;
            },
        };
        if start > usize::MAX as u64 {
            return false;
        }
        match (start as usize).checked_add(size) {
            Some(_) => true,
            None => false,
        }
    }

    /// Get tensor data as a byte slice
    pub fn get_tensor_data(&self, name: &str) -> (r: Result<&[u8], Error>)
        requires
            lookup(self@.tensors, name@) matches Some(info) ==> data_range_computable(
                self@.data_offset,
                info,
            ),
        ensures
            match spec_tensor_data(self@, name@) {
                Ok(bytes) => r matches Ok(s) && s@ == bytes,
                Err(e) => r matches Err(x) && x@ == e,
            },
    {
        let k = String::from_str(name);
        proof {
            lemma_find_key(self@.tensors, name@);
        }
        let tensor_info = match find_entry(&self.tensors, &k) {
            Some(i) => &self.tensors[i].1,
            None => {
                return Err(Error::TensorNotFound(String::from_str(name)));
            },
        };
        let start = (self.data_offset + tensor_info.offset) as usize;
        let size = tensor_info.size_bytes();
        let end = start + size;
        if end > self.data.len() {
            return Err(Error::FileTooSmall { expected: end as u64, got: self.data.len() as u64 });
        }
        Ok(vstd::slice::slice_subrange(self.data.as_slice(), start, end))
    }
}

/// The alignment declared under "general.alignment" (a 32-bit value), or the default.
fn alignment_of(metadata: &Vec<(String, MetadataValue)>) -> (r: u64)
    ensures
        r <= u32::MAX,
        r == declared_alignment(entries_view(metadata@)),
{
    let key = String::from_str("general.alignment");
    proof {
        lemma_find_key(entries_view(metadata@), key@);
    }
    match find_entry(metadata, &key) {
        Some(i) => match metadata[i].1.as_u32() {
            Ok(v) => v as u64,
            Err(_) => GGUF_DEFAULT_ALIGNMENT,
        },
        None => GGUF_DEFAULT_ALIGNMENT,
    }
}
} // verus!
