//! Reading back what was written: the header a writer produces parses to
//! the metadata and tensor descriptions it was given.

use vstd::prelude::*;
use vstd::utf8::{decode_utf8, encode_utf8, valid_utf8};
use crate::gguf::bytes::{
    get_bytes, get_u16, get_u32, get_u64, get_u8, le16, le32, le64, le_bytes16, le_bytes32,
    le_bytes64, lemma_le16_roundtrip, lemma_le32_roundtrip, lemma_le64_roundtrip,
};
use crate::gguf::format::{GGUF_MAGIC, GGUF_VERSION, GGUFVersion};
use crate::gguf::metadata::{MetaView, MetadataValueType};
use crate::gguf::reader::{
    ReaderView, TensorInfoView, declared_alignment, find_key, get_array, get_dims, get_elems,
    get_infos, get_kvs, get_payload, get_string, get_tensor_info, get_value, kv_insert,
    lemma_find_key, parse_gguf, spec_align_offset,
};
use crate::gguf::tensor::GGMLType;
use crate::gguf::writer::{
    WriterView, enc_dims, enc_elems, enc_kvs, enc_payload, enc_string, enc_tensor, enc_tensors,
    enc_value, header_body, padding, spec_write_header,
};

verus! {

broadcast use {vstd::utf8::encode_utf8_valid_utf8, vstd::utf8::encode_utf8_decode_utf8};

/// `e` stands in `b` at `pos`.
pub open spec fn at(b: Seq<u8>, pos: int, e: Seq<u8>) -> bool {
    &&& 0 <= pos
    &&& pos + e.len() <= b.len()
    &&& b.subrange(pos, pos + e.len()) == e
}

proof fn lemma_at_split(b: Seq<u8>, pos: int, x: Seq<u8>, y: Seq<u8>)
    requires
        at(b, pos, x + y),
    ensures
        at(b, pos, x),
        at(b, pos + x.len(), y),
{
    assert(b.subrange(pos, pos + x.len()) =~= (x + y).subrange(0, x.len() as int));
    assert((x + y).subrange(0, x.len() as int) =~= x);
    assert(b.subrange(pos + x.len(), pos + x.len() + y.len()) =~= (x + y).subrange(
        x.len() as int,
        (x + y).len() as int,
    ));
    assert((x + y).subrange(x.len() as int, (x + y).len() as int) =~= y);
}

proof fn lemma_get_u8(b: Seq<u8>, pos: int, v: u8)
    requires
        at(b, pos, seq![v]),
    ensures
        get_u8(b, pos) == Ok::<(u8, int), crate::gguf::error::ErrorView>((v, pos + 1)),
{
    assert(b.subrange(pos, pos + 1)[0] == b[pos]);
}

proof fn lemma_get_u16(b: Seq<u8>, pos: int, v: u16)
    requires
        at(b, pos, le_bytes16(v)),
    ensures
        get_u16(b, pos) == Ok::<(u16, int), crate::gguf::error::ErrorView>((v, pos + 2)),
{
    lemma_le16_roundtrip(v);
}

proof fn lemma_get_u32(b: Seq<u8>, pos: int, v: u32)
    requires
        at(b, pos, le_bytes32(v)),
    ensures
        get_u32(b, pos) == Ok::<(u32, int), crate::gguf::error::ErrorView>((v, pos + 4)),
{
    lemma_le32_roundtrip(v);
}

proof fn lemma_get_u64(b: Seq<u8>, pos: int, v: u64)
    requires
        at(b, pos, le_bytes64(v)),
    ensures
        get_u64(b, pos) == Ok::<(u64, int), crate::gguf::error::ErrorView>((v, pos + 8)),
{
    lemma_le64_roundtrip(v);
}

/// Every string in a value has a UTF-8 length that fits in a `u64`.
pub open spec fn strings_fit(v: MetaView) -> bool {
    match v {
        MetaView::String(s) => encode_utf8(s).len() <= u64::MAX,
        MetaView::Array(_, vals) => vals.len() <= u64::MAX && forall|i: int|
            0 <= i < vals.len() ==> (#[trigger] vals[i] matches MetaView::String(s) ==> encode_utf8(
                s,
            ).len() <= u64::MAX),
        _ => true,
    }
}

proof fn lemma_get_string(b: Seq<u8>, pos: int, s: Seq<char>)
    requires
        at(b, pos, enc_string(s)),
        encode_utf8(s).len() <= u64::MAX,
    ensures
        get_string(b, pos) == Ok::<(Seq<char>, int), crate::gguf::error::ErrorView>(
            (s, pos + enc_string(s).len()),
        ),
{
    let e = encode_utf8(s);
    lemma_at_split(b, pos, le_bytes64(e.len() as u64), e);
    lemma_get_u64(b, pos, e.len() as u64);
    lemma_le64_roundtrip(e.len() as u64);
    assert(get_bytes(b, pos + 8, e.len() as int) == Ok::<(Seq<u8>, int), crate::gguf::error::ErrorView>(
        (e, pos + 8 + e.len()),
    ));
}

proof fn lemma_type_code(t: MetadataValueType)
    ensures
        MetadataValueType::spec_from_u32(t.spec_as_u32()) == Some(t),
{
}

proof fn lemma_tensor_type_code(t: GGMLType)
    ensures
        GGMLType::spec_from_u32(t.spec_as_u32()) == Some(t),
{
}

proof fn lemma_get_payload(b: Seq<u8>, pos: int, v: MetaView, tnum: u32)
    requires
        !(v is Array),
        strings_fit(v),
        at(b, pos, enc_payload(v)),
    ensures
        get_payload(b, pos, v.value_type(), tnum) == Ok::<(MetaView, int), crate::gguf::error::ErrorView>(
            (v, pos + enc_payload(v).len()),
        ),
{
    match v {
        MetaView::UInt8(x) => lemma_get_u8(b, pos, x),
        MetaView::Int8(x) => {
            lemma_get_u8(b, pos, x as u8);
            assert((x as u8) as i8 == x) by (bit_vector);
        },
        MetaView::UInt16(x) => lemma_get_u16(b, pos, x),
        MetaView::Int16(x) => {
            lemma_get_u16(b, pos, x as u16);
            lemma_le16_roundtrip(x as u16);
            assert((x as u16) as i16 == x) by (bit_vector);
        },
        MetaView::UInt32(x) => lemma_get_u32(b, pos, x),
        MetaView::Int32(x) => {
            lemma_get_u32(b, pos, x as u32);
            assert((x as u32) as i32 == x) by (bit_vector);
        },
        MetaView::Float32(x) => lemma_get_u32(b, pos, x),
        MetaView::Bool(x) => lemma_get_u8(b, pos, if x { 1u8 } else { 0u8 }),
        MetaView::String(s) => lemma_get_string(b, pos, s),
        MetaView::UInt64(x) => lemma_get_u64(b, pos, x),
        MetaView::Int64(x) => {
            lemma_get_u64(b, pos, x as u64);
            assert((x as u64) as i64 == x) by (bit_vector);
        },
        MetaView::Float64(x) => lemma_get_u64(b, pos, x),
        MetaView::Array(..) => {},
    }
}

/// The elements of an array all have the array's element type.
pub open spec fn well_typed(v: MetaView) -> bool {
    match v {
        MetaView::Array(at, vals) => forall|i: int|
            0 <= i < vals.len() ==> (#[trigger] vals[i]).value_type() == at,
        _ => true,
    }
}

proof fn lemma_get_elems(b: Seq<u8>, pos: int, vals: Seq<MetaView>, t: MetadataValueType, tnum: u32, k: int)
    requires
        0 <= k <= vals.len(),
        forall|i: int| 0 <= i < vals.len() ==> (#[trigger] vals[i]).value_type() == t,
        forall|i: int|
            0 <= i < vals.len() ==> (#[trigger] vals[i] matches MetaView::String(s) ==> encode_utf8(
                s,
            ).len() <= u64::MAX),
        enc_elems(vals, k).1,
        at(b, pos, enc_elems(vals, k).0),
    ensures
        get_elems(b, pos, t, tnum, k as nat) == Ok::<(Seq<MetaView>, int), crate::gguf::error::ErrorView>(
            (vals.take(k), pos + enc_elems(vals, k).0.len()),
        ),
    decreases k,
{
    if k > 0 {
        let prev = enc_elems(vals, k - 1).0;
        let v = vals[k - 1];
        lemma_at_split(b, pos, prev, enc_payload(v));
        lemma_get_elems(b, pos, vals, t, tnum, k - 1);
        assert(strings_fit(v));
        lemma_get_payload(b, pos + prev.len(), v, tnum);
        assert(vals.take(k - 1).push(v) =~= vals.take(k));
    } else {
        assert(vals.take(0) =~= Seq::<MetaView>::empty());
    }
}

proof fn lemma_get_value(b: Seq<u8>, pos: int, v: MetaView)
    requires
        enc_value(v).1,
        well_typed(v),
        strings_fit(v),
        at(b, pos, enc_value(v).0),
    ensures
        get_value(b, pos) == Ok::<(MetaView, int), crate::gguf::error::ErrorView>(
            (v, pos + enc_value(v).0.len()),
        ),
{
    let tag = le_bytes32(v.value_type().spec_as_u32());
    lemma_type_code(v.value_type());
    match v {
        MetaView::Array(t, vals) => {
            let e = enc_elems(vals, vals.len() as int).0;
            let head = tag + le_bytes32(t.spec_as_u32()) + le_bytes64(vals.len() as u64);
            assert(enc_value(v).0 == head + e);
            lemma_at_split(b, pos, head, e);
            lemma_at_split(b, pos, tag + le_bytes32(t.spec_as_u32()), le_bytes64(vals.len() as u64));
            lemma_at_split(b, pos, tag, le_bytes32(t.spec_as_u32()));
            lemma_get_u32(b, pos, v.value_type().spec_as_u32());
            lemma_get_u32(b, pos + 4, t.spec_as_u32());
            lemma_type_code(t);
            lemma_get_u64(b, pos + 8, vals.len() as u64);
            lemma_get_elems(b, pos + 16, vals, t, t.spec_as_u32(), vals.len() as int);
            assert(vals.take(vals.len() as int) =~= vals);
            assert(get_array(b, pos + 4) == Ok::<(MetaView, int), crate::gguf::error::ErrorView>(
                (v, pos + enc_value(v).0.len()),
            ));
        },
        _ => {
            lemma_at_split(b, pos, tag, enc_payload(v));
            lemma_get_u32(b, pos, v.value_type().spec_as_u32());
            lemma_get_payload(b, pos + 4, v, v.value_type().spec_as_u32());
        },
    }
}

/// No two entries share a key.
pub open spec fn distinct_keys<V>(e: Seq<(Seq<char>, V)>) -> bool {
    forall|i: int, j: int| 0 <= i < j < e.len() ==> e[i].0 != e[j].0
}

/// Every value of the metadata can be written and read back.
pub open spec fn metadata_round_trips(md: Seq<(Seq<char>, MetaView)>) -> bool {
    &&& distinct_keys(md)
    &&& forall|i: int|
        0 <= i < md.len() ==> encode_utf8((#[trigger] md[i]).0).len() <= u64::MAX && well_typed(
            md[i].1,
        ) && strings_fit(md[i].1)
}

proof fn lemma_get_kvs(b: Seq<u8>, pos: int, md: Seq<(Seq<char>, MetaView)>, k: int)
    requires
        0 <= k <= md.len(),
        metadata_round_trips(md),
        enc_kvs(md, k).1,
        at(b, pos, enc_kvs(md, k).0),
    ensures
        get_kvs(b, pos, k as nat) == Ok::<(Seq<(Seq<char>, MetaView)>, int), crate::gguf::error::ErrorView>(
            (md.take(k), pos + enc_kvs(md, k).0.len()),
        ),
    decreases k,
{
    if k > 0 {
        let prev = enc_kvs(md, k - 1).0;
        let (key, v) = md[k - 1];
        assert(enc_kvs(md, k - 1).1);
        lemma_at_split(b, pos, prev + enc_string(key), enc_value(v).0);
        lemma_at_split(b, pos, prev, enc_string(key));
        lemma_get_kvs(b, pos, md, k - 1);
        lemma_get_string(b, pos + prev.len(), key);
        lemma_get_value(b, pos + prev.len() + enc_string(key).len(), v);
        let acc = md.take(k - 1);
        lemma_find_key(acc, key);
        if find_key(acc, key) >= 0 {
            assert(acc[find_key(acc, key)].0 == md[find_key(acc, key)].0);
        }
        assert(kv_insert(acc, key, v) =~= md.take(k));
    } else {
        assert(md.take(0) =~= Seq::<(Seq<char>, MetaView)>::empty());
    }
}

proof fn lemma_get_dims(b: Seq<u8>, pos: int, d: Seq<u64>, k: int)
    requires
        0 <= k <= d.len(),
        at(b, pos, enc_dims(d, k)),
    ensures
        get_dims(b, pos, k as nat) == Ok::<(Seq<u64>, int), crate::gguf::error::ErrorView>(
            (d.take(k), pos + enc_dims(d, k).len()),
        ),
    decreases k,
{
    if k > 0 {
        lemma_at_split(b, pos, enc_dims(d, k - 1), le_bytes64(d[k - 1]));
        lemma_get_dims(b, pos, d, k - 1);
        lemma_get_u64(b, pos + enc_dims(d, k - 1).len(), d[k - 1]);
        assert(d.take(k - 1).push(d[k - 1]) =~= d.take(k));
    } else {
        assert(d.take(0) =~= Seq::<u64>::empty());
    }
}

/// A tensor description reads back as written.
pub open spec fn tensor_round_trips(t: TensorInfoView) -> bool {
    &&& t.n_dims == t.dimensions.len()
    &&& t.dimensions.len() <= u32::MAX
    &&& encode_utf8(t.name).len() <= u64::MAX
}

proof fn lemma_get_tensor_info(b: Seq<u8>, pos: int, t: TensorInfoView)
    requires
        tensor_round_trips(t),
        at(b, pos, enc_tensor(t)),
    ensures
        get_tensor_info(b, pos) == Ok::<(TensorInfoView, int), crate::gguf::error::ErrorView>(
            (t, pos + enc_tensor(t).len()),
        ),
{
    let s = enc_string(t.name);
    let nd = le_bytes32(t.n_dims as u32);
    let ds = enc_dims(t.dimensions, t.dimensions.len() as int);
    let ty = le_bytes32(t.tensor_type.spec_as_u32());
    let off = le_bytes64(t.offset);
    lemma_at_split(b, pos, s + nd + ds + ty, off);
    lemma_at_split(b, pos, s + nd + ds, ty);
    lemma_at_split(b, pos, s + nd, ds);
    lemma_at_split(b, pos, s, nd);
    lemma_get_string(b, pos, t.name);
    lemma_get_u32(b, pos + s.len(), t.n_dims as u32);
    lemma_get_dims(b, pos + s.len() + 4, t.dimensions, t.dimensions.len() as int);
    assert(t.dimensions.take(t.dimensions.len() as int) =~= t.dimensions);
    lemma_get_u32(b, pos + s.len() + 4 + ds.len(), t.tensor_type.spec_as_u32());
    lemma_tensor_type_code(t.tensor_type);
    lemma_get_u64(b, pos + s.len() + 4 + ds.len() + 4, t.offset);
}

/// Tensor descriptions stored by name.
pub open spec fn named(ts: Seq<TensorInfoView>) -> Seq<(Seq<char>, TensorInfoView)> {
    ts.map_values(|t: TensorInfoView| (t.name, t))
}

/// Every tensor description reads back, and no two share a name.
pub open spec fn tensors_round_trip(ts: Seq<TensorInfoView>) -> bool {
    &&& forall|i: int, j: int| 0 <= i < j < ts.len() ==> ts[i].name != ts[j].name
    &&& forall|i: int| 0 <= i < ts.len() ==> tensor_round_trips(#[trigger] ts[i])
}

proof fn lemma_get_infos(b: Seq<u8>, pos: int, ts: Seq<TensorInfoView>, k: int)
    requires
        0 <= k <= ts.len(),
        tensors_round_trip(ts),
        at(b, pos, enc_tensors(ts, k)),
    ensures
        get_infos(b, pos, k as nat) == Ok::<(Seq<(Seq<char>, TensorInfoView)>, int), crate::gguf::error::ErrorView>(
            (named(ts.take(k)), pos + enc_tensors(ts, k).len()),
        ),
    decreases k,
{
    if k > 0 {
        let prev = enc_tensors(ts, k - 1);
        lemma_at_split(b, pos, prev, enc_tensor(ts[k - 1]));
        lemma_get_infos(b, pos, ts, k - 1);
        lemma_get_tensor_info(b, pos + prev.len(), ts[k - 1]);
        let acc = named(ts.take(k - 1));
        let name = ts[k - 1].name;
        lemma_find_key(acc, name);
        if find_key(acc, name) >= 0 {
            assert(acc[find_key(acc, name)].0 == ts[find_key(acc, name)].name);
        }
        assert(kv_insert(acc, name, ts[k - 1]) =~= named(ts.take(k)));
    } else {
        assert(named(ts.take(0)) =~= Seq::<(Seq<char>, TensorInfoView)>::empty());
    }
}

#[verifier::spinoff_prover]
#[verifier::rlimit(40)]
/// Parsing the header a writer produced, followed by any tensor data,
/// gives back the metadata and tensor descriptions that were added (the
/// tensors stored by name), with version 3 and the counts written. The
/// metadata may hold no array within an array, each array's elements must
/// have its element type, tensor names must be distinct and their dimension
/// counts must be the lengths of their dimension lists.
pub proof fn lemma_header_reads_back(w: WriterView, data: Seq<u8>)
    requires
        w.out.len() == 0,
        spec_write_header(w).1 is Ok,
        metadata_round_trips(w.metadata),
        tensors_round_trip(w.tensors),
        w.metadata.len() <= u64::MAX,
        w.tensors.len() <= u64::MAX,
        declared_alignment(w.metadata) != 0,
        spec_write_header(w).0.len() <= u64::MAX,
    ensures
        ({
            let bytes = spec_write_header(w).0 + data;
            let body_len = header_body(w).0.len();
            parse_gguf(bytes) == Ok::<ReaderView, crate::gguf::error::ErrorView>(
                ReaderView {
                    version: GGUFVersion::V3,
                    tensor_count: w.tensors.len() as u64,
                    metadata_kv_count: w.metadata.len() as u64,
                    metadata: w.metadata,
                    tensors: named(w.tensors),
                    alignment: declared_alignment(w.metadata),
                    data_offset: spec_align_offset(
                        body_len as u64,
                        declared_alignment(w.metadata),
                    ) as u64,
                    data: bytes,
                },
            )
        }),
{
    let bytes = spec_write_header(w).0 + data;
    let (kvs, ok) = enc_kvs(w.metadata, w.metadata.len() as int);
    let start = le_bytes32(GGUF_MAGIC) + le_bytes32(GGUF_VERSION) + le_bytes64(w.tensors.len() as u64)
        + le_bytes64(w.metadata.len() as u64);
    let tens = enc_tensors(w.tensors, w.tensors.len() as int);
    let body = header_body(w).0;
    assert(ok);
    assert(body == start + kvs + tens);
    let pad = padding((w.out.len() + body.len()) as int, w.alignment);
    assert(spec_write_header(w).0 =~= body + pad);
    assert(at(bytes, 0, body)) by {
        assert(bytes.subrange(0, body.len() as int) =~= body);
    }
    lemma_at_split(bytes, 0, start + kvs, tens);
    lemma_at_split(bytes, 0, start, kvs);
    let s1 = le_bytes32(GGUF_MAGIC);
    let s2 = le_bytes32(GGUF_VERSION);
    let s3 = le_bytes64(w.tensors.len() as u64);
    let s4 = le_bytes64(w.metadata.len() as u64);
    lemma_at_split(bytes, 0, s1 + s2 + s3, s4);
    lemma_at_split(bytes, 0, s1 + s2, s3);
    lemma_at_split(bytes, 0, s1, s2);
    lemma_get_u32(bytes, 0, GGUF_MAGIC);
    lemma_get_u32(bytes, 4, GGUF_VERSION);
    lemma_get_u64(bytes, 8, w.tensors.len() as u64);
    lemma_get_u64(bytes, 16, w.metadata.len() as u64);
    lemma_get_kvs(bytes, 24, w.metadata, w.metadata.len() as int);
    assert(w.metadata.take(w.metadata.len() as int) =~= w.metadata);
    lemma_get_infos(bytes, (24 + kvs.len()) as int, w.tensors, w.tensors.len() as int);
    assert(w.tensors.take(w.tensors.len() as int) =~= w.tensors);
    lemma_le64_roundtrip(w.tensors.len() as u64);
    let p6 = (24 + kvs.len() + tens.len()) as int;
    assert(p6 == body.len());
    assert(GGUFVersion::spec_from_u32(GGUF_VERSION) == Some(GGUFVersion::V3));
    assert(get_kvs(bytes, 24, (w.metadata.len() as u64) as nat) == Ok::<(Seq<(Seq<char>, MetaView)>, int), crate::gguf::error::ErrorView>(
        (w.metadata, (24 + kvs.len()) as int),
    ));
    assert(get_infos(bytes, (24 + kvs.len()) as int, (w.tensors.len() as u64) as nat) == Ok::<(Seq<(Seq<char>, TensorInfoView)>, int), crate::gguf::error::ErrorView>(
        (named(w.tensors), p6),
    ));
}

} // verus!
