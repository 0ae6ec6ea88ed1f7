//! Little-endian integers in byte sequences, read and written with `byteorder`.

use vstd::prelude::*;
use byteorder::{ByteOrder, LittleEndian};
use crate::gguf::error::{Error, ErrorView};

verus! {

/// The first two bytes of `b`, least significant first.
pub open spec fn le16(b: Seq<u8>) -> u16 {
    (b[0] as u16) | ((b[1] as u16) << 8u16)
}

/// The first four bytes of `b`, least significant first.
pub open spec fn le32(b: Seq<u8>) -> u32 {
    (b[0] as u32) | ((b[1] as u32) << 8u32) | ((b[2] as u32) << 16u32) | ((b[3] as u32) << 24u32)
}

/// The first eight bytes of `b`, least significant first.
pub open spec fn le64(b: Seq<u8>) -> u64 {
    (b[0] as u64) | ((b[1] as u64) << 8u64) | ((b[2] as u64) << 16u64) | ((b[3] as u64) << 24u64)
        | ((b[4] as u64) << 32u64) | ((b[5] as u64) << 40u64) | ((b[6] as u64) << 48u64) | ((
    b[7] as u64) << 56u64)
}

/// The two bytes of `v`, least significant first.
pub open spec fn le_bytes16(v: u16) -> Seq<u8> {
    seq![(v & 0xff) as u8, ((v >> 8u16) & 0xff) as u8]
}

/// The four bytes of `v`, least significant first.
pub open spec fn le_bytes32(v: u32) -> Seq<u8> {
    seq![
        (v & 0xff) as u8,
        ((v >> 8u32) & 0xff) as u8,
        ((v >> 16u32) & 0xff) as u8,
        ((v >> 24u32) & 0xff) as u8,
    ]
}

/// The eight bytes of `v`, least significant first.
pub open spec fn le_bytes64(v: u64) -> Seq<u8> {
    seq![
        (v & 0xff) as u8,
        ((v >> 8u64) & 0xff) as u8,
        ((v >> 16u64) & 0xff) as u8,
        ((v >> 24u64) & 0xff) as u8,
        ((v >> 32u64) & 0xff) as u8,
        ((v >> 40u64) & 0xff) as u8,
        ((v >> 48u64) & 0xff) as u8,
        ((v >> 56u64) & 0xff) as u8,
    ]
}

pub proof fn lemma_le16_roundtrip(v: u16)
    ensures
        le16(le_bytes16(v)) == v,
        le_bytes16(v).len() == 2,
{
    let b = le_bytes16(v);
    let b0 = b[0];
    let b1 = b[1];
    assert(b0 == (v & 0xff) as u8);
    assert(b1 == ((v >> 8u16) & 0xff) as u8);
    assert((((v & 0xff) as u8) as u16) | (((((v >> 8u16) & 0xff) as u8) as u16) << 8u16) == v)
        by (bit_vector);
}

pub proof fn lemma_le32_roundtrip(v: u32)
    ensures
        le32(le_bytes32(v)) == v,
        le_bytes32(v).len() == 4,
{
    let b = le_bytes32(v);
    assert(b[0] == (v & 0xff) as u8);
    assert(b[1] == ((v >> 8u32) & 0xff) as u8);
    assert(b[2] == ((v >> 16u32) & 0xff) as u8);
    assert(b[3] == ((v >> 24u32) & 0xff) as u8);
    assert((((v & 0xff) as u8) as u32) | (((((v >> 8u32) & 0xff) as u8) as u32) << 8u32) | ((((
    (v >> 16u32) & 0xff) as u8) as u32) << 16u32) | (((((v >> 24u32) & 0xff) as u8) as u32)
        << 24u32) == v) by (bit_vector);
}

pub proof fn lemma_le64_roundtrip(v: u64)
    ensures
        le64(le_bytes64(v)) == v,
        le_bytes64(v).len() == 8,
{
    let b = le_bytes64(v);
    assert(b[0] == (v & 0xff) as u8);
    assert(b[1] == ((v >> 8u64) & 0xff) as u8);
    assert(b[2] == ((v >> 16u64) & 0xff) as u8);
    assert(b[3] == ((v >> 24u64) & 0xff) as u8);
    assert(b[4] == ((v >> 32u64) & 0xff) as u8);
    assert(b[5] == ((v >> 40u64) & 0xff) as u8);
    assert(b[6] == ((v >> 48u64) & 0xff) as u8);
    assert(b[7] == ((v >> 56u64) & 0xff) as u8);
    assert((((v & 0xff) as u8) as u64) | (((((v >> 8u64) & 0xff) as u8) as u64) << 8u64) | ((((
    (v >> 16u64) & 0xff) as u8) as u64) << 16u64) | (((((v >> 24u64) & 0xff) as u8) as u64)
        << 24u64) | (((((v >> 32u64) & 0xff) as u8) as u64) << 32u64) | (((((v >> 40u64) & 0xff)
        as u8) as u64) << 40u64) | (((((v >> 48u64) & 0xff) as u8) as u64) << 48u64) | (((((v
        >> 56u64) & 0xff) as u8) as u64) << 56u64) == v) by (bit_vector);
}

/// byteorder's `LittleEndian::read_u16`: the first two bytes of `buf`,
/// least significant first (it panics on fewer than two bytes).
#[verifier::external_body]
fn le_read_u16(buf: &[u8]) -> (r: u16)
    requires
        buf@.len() >= 2,
    ensures
        r == le16(buf@),
{
    LittleEndian::read_u16(buf)
}

/// byteorder's `LittleEndian::read_u32`: the first four bytes of `buf`,
/// least significant first (it panics on fewer than four bytes).
#[verifier::external_body]
fn le_read_u32(buf: &[u8]) -> (r: u32)
    requires
        buf@.len() >= 4,
    ensures
        r == le32(buf@),
{
    LittleEndian::read_u32(buf)
}

/// byteorder's `LittleEndian::read_u64`: the first eight bytes of `buf`,
/// least significant first (it panics on fewer than eight bytes).
#[verifier::external_body]
fn le_read_u64(buf: &[u8]) -> (r: u64)
    requires
        buf@.len() >= 8,
    ensures
        r == le64(buf@),
{
    LittleEndian::read_u64(buf)
}

/// byteorder's `LittleEndian::write_u16` into a two-byte buffer: the bytes
/// of `n`, least significant first.
#[verifier::external_body]
fn le_bytes_u16(n: u16) -> (r: [u8; 2])
    ensures
        r@ == le_bytes16(n),
{
    let mut buf = [0u8; 2];
    LittleEndian::write_u16(&mut buf, n);
    buf
}

/// byteorder's `LittleEndian::write_u32` into a four-byte buffer: the bytes
/// of `n`, least significant first.
#[verifier::external_body]
fn le_bytes_u32(n: u32) -> (r: [u8; 4])
    ensures
        r@ == le_bytes32(n),
{
    let mut buf = [0u8; 4];
    LittleEndian::write_u32(&mut buf, n);
    buf
}

/// byteorder's `LittleEndian::write_u64` into an eight-byte buffer: the
/// bytes of `n`, least significant first.
#[verifier::external_body]
fn le_bytes_u64(n: u64) -> (r: [u8; 8])
    ensures
        r@ == le_bytes64(n),
{
    let mut buf = [0u8; 8];
    LittleEndian::write_u64(&mut buf, n);
    buf
}

/// A parse step's outcome: a value and the position after it, or an error.
pub type Parsed<T> = Result<(T, int), ErrorView>;

/// An executable parse step's outcome seen through views.
pub open spec fn parsed<T>(r: Result<(T, usize), Error>) -> Parsed<T> {
    match r {
        Ok((v, p)) => Ok((v, p as int)),
        Err(e) => Err(e@),
    }
}

/// The `n` bytes at `pos`, when there are that many.
pub open spec fn get_bytes(b: Seq<u8>, pos: int, n: int) -> Parsed<Seq<u8>> {
    if 0 <= pos && 0 <= n && pos + n <= b.len() {
        Ok((b.subrange(pos, pos + n), pos + n))
    } else {
        Err(ErrorView::UnexpectedEof)
    }
}

pub open spec fn get_u8(b: Seq<u8>, pos: int) -> Parsed<u8> {
    if 0 <= pos && pos + 1 <= b.len() {
        Ok((b[pos], pos + 1))
    } else {
        Err(ErrorView::UnexpectedEof)
    }
}

pub open spec fn get_u16(b: Seq<u8>, pos: int) -> Parsed<u16> {
    if 0 <= pos && pos + 2 <= b.len() {
        Ok((le16(b.subrange(pos, pos + 2)), pos + 2))
    } else {
        Err(ErrorView::UnexpectedEof)
    }
}

pub open spec fn get_u32(b: Seq<u8>, pos: int) -> Parsed<u32> {
    if 0 <= pos && pos + 4 <= b.len() {
        Ok((le32(b.subrange(pos, pos + 4)), pos + 4))
    } else {
        Err(ErrorView::UnexpectedEof)
    }
}

pub open spec fn get_u64(b: Seq<u8>, pos: int) -> Parsed<u64> {
    if 0 <= pos && pos + 8 <= b.len() {
        Ok((le64(b.subrange(pos, pos + 8)), pos + 8))
    } else {
        Err(ErrorView::UnexpectedEof)
    }
}

pub fn take_u8(b: &[u8], pos: usize) -> (r: Result<(u8, usize), Error>)
    ensures
        parsed(r) == get_u8(b@, pos as int),
{
    if pos >= b.len() {
        return Err(Error::UnexpectedEof);
    }
    Ok((b[pos], pos + 1))
}

pub fn take_u16(b: &[u8], pos: usize) -> (r: Result<(u16, usize), Error>)
    ensures
        parsed(r) == get_u16(b@, pos as int),
{
    if pos > b.len() || b.len() - pos < 2 {
        return Err(Error::UnexpectedEof);
    }
    let s = vstd::slice::slice_subrange(b, pos, pos + 2);
    Ok((le_read_u16(s), pos + 2))
}

pub fn take_u32(b: &[u8], pos: usize) -> (r: Result<(u32, usize), Error>)
    ensures
        parsed(r) == get_u32(b@, pos as int),
{
    if pos > b.len() || b.len() - pos < 4 {
        return Err(Error::UnexpectedEof);
    }
    let s = vstd::slice::slice_subrange(b, pos, pos + 4);
    Ok((le_read_u32(s), pos + 4))
}

pub fn take_u64(b: &[u8], pos: usize) -> (r: Result<(u64, usize), Error>)
    ensures
        parsed(r) == get_u64(b@, pos as int),
{
    if pos > b.len() || b.len() - pos < 8 {
        return Err(Error::UnexpectedEof);
    }
    let s = vstd::slice::slice_subrange(b, pos, pos + 8);
    Ok((le_read_u64(s), pos + 8))
}

/// Appends `src` to `out`.
pub fn put_bytes(out: &mut Vec<u8>, src: &[u8])
    ensures
        final(out)@ == old(out)@ + src@,
{
    let mut i: usize = 0;
    while i < src.len()
        invariant
            i <= src@.len(),
            out@ == old(out)@ + src@.take(i as int),
        decreases src@.len() - i,
    {
        out.push(src[i]);
        assert(src@.take(i + 1) =~= src@.take(i as int).push(src@[i as int]));
        i = i + 1;
    }
    assert(src@.take(i as int) =~= src@);
}

pub fn put_u8(out: &mut Vec<u8>, v: u8)
    ensures
        final(out)@ == old(out)@ + seq![v],
{
    out.push(v);
    assert(out@ =~= old(out)@ + seq![v]);
}

pub fn put_u16(out: &mut Vec<u8>, v: u16)
    ensures
        final(out)@ == old(out)@ + le_bytes16(v),
{
    let b = le_bytes_u16(v);
    put_bytes(out, &b);
}

pub fn put_u32(out: &mut Vec<u8>, v: u32)
    ensures
        final(out)@ == old(out)@ + le_bytes32(v),
{
    let b = le_bytes_u32(v);
    put_bytes(out, &b);
}

pub fn put_u64(out: &mut Vec<u8>, v: u64)
    ensures
        final(out)@ == old(out)@ + le_bytes64(v),
{
    let b = le_bytes_u64(v);
    put_bytes(out, &b);
}

} // verus!
