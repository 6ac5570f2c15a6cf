//! The primitive encodings of the format: little-endian integers, fixed-width
//! zero-padded text, and writing into a buffer at a position.

use crate::error::{I2Error, I2Result};
use byteorder::{ByteOrder, LittleEndian};
use vstd::prelude::*;
use vstd::slice::slice_subrange;
use vstd::utf8::{decode_utf8, encode_utf8, valid_utf8};

verus! {

/// The unsigned integer whose little-endian bytes are the first two of `b`.
pub open spec fn le_u16(b: Seq<u8>) -> u16 {
    (b[0] as int + 0x100 * (b[1] as int)) as u16
}

/// The unsigned integer whose little-endian bytes are the first four of `b`.
pub open spec fn le_u32(b: Seq<u8>) -> u32 {
    (b[0] as int + 0x100 * (b[1] as int) + 0x1_0000 * (b[2] as int) + 0x100_0000 * (
    b[3] as int)) as u32
}

/// The two's complement integer whose little-endian bytes are the first two of `b`.
pub open spec fn le_i16(b: Seq<u8>) -> i16 {
    if le_u16(b) >= 0x8000 {
        (le_u16(b) - 0x1_0000) as i16
    } else {
        le_u16(b) as i16
    }
}

/// The two's complement integer whose little-endian bytes are the first four of `b`.
pub open spec fn le_i32(b: Seq<u8>) -> i32 {
    if le_u32(b) >= 0x8000_0000 {
        (le_u32(b) - 0x1_0000_0000) as i32
    } else {
        le_u32(b) as i32
    }
}

/// The two bytes of `v`, least significant first.
pub open spec fn u16_le(v: u16) -> Seq<u8> {
    seq![(v % 0x100) as u8, (v / 0x100) as u8]
}

/// The four bytes of `v`, least significant first.
pub open spec fn u32_le(v: u32) -> Seq<u8> {
    seq![
        (v % 0x100) as u8,
        (v / 0x100 % 0x100) as u8,
        (v / 0x1_0000 % 0x100) as u8,
        (v / 0x100_0000) as u8,
    ]
}

/// The two bytes of `v` in two's complement, least significant first.
pub open spec fn i16_le(v: i16) -> Seq<u8> {
    if v < 0 {
        u16_le((v + 0x1_0000) as u16)
    } else {
        u16_le(v as u16)
    }
}

/// The four bytes of `v` in two's complement, least significant first.
pub open spec fn i32_le(v: i32) -> Seq<u8> {
    if v < 0 {
        u32_le((v + 0x1_0000_0000) as u32)
    } else {
        u32_le(v as u32)
    }
}

/// `byteorder::LittleEndian::read_u16`: the first two bytes of `buf` read as a
/// little-endian unsigned integer. It panics on a shorter slice.
#[verifier::external_body]
pub(crate) fn read_u16(buf: &[u8]) -> (r: u16)
    requires
        buf@.len() >= 2,
    ensures
        r == le_u16(buf@),
{
    LittleEndian::read_u16(buf)
}

/// `byteorder::LittleEndian::read_i16`: the first two bytes of `buf` read as a
/// little-endian two's complement integer. It panics on a shorter slice.
#[verifier::external_body]
pub(crate) fn read_i16(buf: &[u8]) -> (r: i16)
    requires
        buf@.len() >= 2,
    ensures
        r == le_i16(buf@),
{
    LittleEndian::read_i16(buf)
}

/// `byteorder::LittleEndian::read_u32`: the first four bytes of `buf` read as a
/// little-endian unsigned integer. It panics on a shorter slice.
#[verifier::external_body]
pub(crate) fn read_u32(buf: &[u8]) -> (r: u32)
    requires
        buf@.len() >= 4,
    ensures
        r == le_u32(buf@),
{
    LittleEndian::read_u32(buf)
}

/// `byteorder::LittleEndian::read_i32`: the first four bytes of `buf` read as a
/// little-endian two's complement integer. It panics on a shorter slice.
#[verifier::external_body]
pub(crate) fn read_i32(buf: &[u8]) -> (r: i32)
    requires
        buf@.len() >= 4,
    ensures
        r == le_i32(buf@),
{
    LittleEndian::read_i32(buf)
}

/// `byteorder::LittleEndian::write_u16` on a buffer of two bytes: the buffer
/// then holds `v`, least significant byte first.
#[verifier::external_body]
pub(crate) fn u16_bytes(v: u16) -> (r: [u8; 2])
    ensures
        r@ == u16_le(v),
{
    let mut buf = [0u8; 2];
    LittleEndian::write_u16(&mut buf, v);
    buf
}

/// `byteorder::LittleEndian::write_i16` on a buffer of two bytes: the buffer
/// then holds `v` in two's complement, least significant byte first.
#[verifier::external_body]
pub(crate) fn i16_bytes(v: i16) -> (r: [u8; 2])
    ensures
        r@ == i16_le(v),
{
    let mut buf = [0u8; 2];
    LittleEndian::write_i16(&mut buf, v);
    buf
}

/// `byteorder::LittleEndian::write_u32` on a buffer of four bytes: the buffer
/// then holds `v`, least significant byte first.
#[verifier::external_body]
pub(crate) fn u32_bytes(v: u32) -> (r: [u8; 4])
    ensures
        r@ == u32_le(v),
{
    let mut buf = [0u8; 4];
    LittleEndian::write_u32(&mut buf, v);
    buf
}

/// `byteorder::LittleEndian::write_i32` on a buffer of four bytes: the buffer
/// then holds `v` in two's complement, least significant byte first.
#[verifier::external_body]
pub(crate) fn i32_bytes(v: i32) -> (r: [u8; 4])
    ensures
        r@ == i32_le(v),
{
    let mut buf = [0u8; 4];
    LittleEndian::write_i32(&mut buf, v);
    buf
}

/// `core::str::from_utf8`: it succeeds exactly on well-formed UTF-8, and the
/// text then holds the characters that the bytes encode.
pub assume_specification[ core::str::from_utf8 ](v: &[u8]) -> (r: Result<
    &str,
    core::str::Utf8Error,
>)
    ensures
        r is Ok <==> valid_utf8(v@),
        r matches Ok(s) ==> s@ == decode_utf8(v@),
;

/// Reading an unsigned 16-bit number back from its bytes gives the number.
pub proof fn lemma_le_u16_of_bytes(v: u16)
    ensures
        le_u16(u16_le(v)) == v,
{
    let b = u16_le(v);
    assert(b[0] == (v % 0x100) as u8 && b[1] == (v / 0x100) as u8);
}

/// Reading an unsigned 32-bit number back from its bytes gives the number.
pub proof fn lemma_le_u32_of_bytes(v: u32)
    ensures
        le_u32(u32_le(v)) == v,
{
    let b = u32_le(v);
    assert(b[0] == (v % 0x100) as u8 && b[1] == (v / 0x100 % 0x100) as u8 && b[2] == (v / 0x1_0000
        % 0x100) as u8 && b[3] == (v / 0x100_0000) as u8);
}

/// Reading a signed 16-bit number back from its bytes gives the number.
pub proof fn lemma_le_i16_of_bytes(v: i16)
    ensures
        le_i16(i16_le(v)) == v,
{
    if v < 0 {
        lemma_le_u16_of_bytes((v + 0x1_0000) as u16);
    } else {
        lemma_le_u16_of_bytes(v as u16);
    }
}

/// Reading a signed 32-bit number back from its bytes gives the number.
pub proof fn lemma_le_i32_of_bytes(v: i32)
    ensures
        le_i32(i32_le(v)) == v,
{
    if v < 0 {
        lemma_le_u32_of_bytes((v + 0x1_0000_0000) as u32);
    } else {
        lemma_le_u32_of_bytes(v as u32);
    }
}

/// `n` zero bytes.
pub open spec fn zeros(n: int) -> Seq<u8> {
    Seq::new(n as nat, |i: int| 0u8)
}

/// The number of bytes of `b` that come before its first zero byte.
pub open spec fn text_len(b: Seq<u8>) -> int
    decreases b.len(),
{
    if b.len() == 0 || b[0] == 0 {
        0
    } else {
        1 + text_len(b.drop_first())
    }
}

/// The bytes of the text that a fixed-width field holds: all that come before
/// its first zero byte.
pub open spec fn text_bytes(b: Seq<u8>) -> Seq<u8> {
    b.take(text_len(b))
}

/// Whether the field `b` holds a text.
pub open spec fn text_ok(b: Seq<u8>) -> bool {
    valid_utf8(text_bytes(b))
}

/// The text that the field `b` holds.
pub open spec fn text_of(b: Seq<u8>) -> Seq<char> {
    decode_utf8(text_bytes(b))
}

/// The field of `width` bytes that stands for the text `s`: its UTF-8 bytes,
/// cut off after `width` of them or filled up with zero bytes.
pub open spec fn text_field(s: Seq<char>, width: int) -> Seq<u8> {
    let b = encode_utf8(s);
    if b.len() >= width {
        b.take(width)
    } else {
        b + zeros(width - b.len())
    }
}

/// `buf` after `data` was written at position `pos`: the buffer is first
/// filled up with zero bytes to `pos`, then `data` replaces what stood there
/// and lengthens the buffer where it reaches beyond the end.
pub open spec fn write_at(buf: Seq<u8>, pos: int, data: Seq<u8>) -> Seq<u8> {
    let len = if buf.len() >= pos + data.len() {
        buf.len() as int
    } else {
        pos + data.len()
    };
    Seq::new(
        len as nat,
        |i: int|
            if pos <= i < pos + data.len() {
                data[i - pos]
            } else if i < buf.len() {
                buf[i]
            } else {
                0u8
            },
    )
}

/// `n` is the text length of `b` when no zero byte comes before position `n`
/// and `b` ends or holds a zero byte there.
pub proof fn lemma_text_len(b: Seq<u8>, n: int)
    requires
        0 <= n <= b.len(),
        forall|i: int| 0 <= i < n ==> b[i] != 0,
        n < b.len() ==> b[n] == 0,
    ensures
        text_len(b) == n,
    decreases n,
{
    if n > 0 {
        lemma_text_len(b.drop_first(), n - 1);
    }
}

/// Appends the little-endian bytes of `v`.
pub fn push_u16(out: &mut Vec<u8>, v: u16)
    ensures
        final(out)@ == old(out)@ + u16_le(v),
{
    let b = u16_bytes(v);
    out.push(b[0]);
    out.push(b[1]);
    assert(out@ =~= old(out)@ + u16_le(v));
}

/// Appends the little-endian two's complement bytes of `v`.
pub fn push_i16(out: &mut Vec<u8>, v: i16)
    ensures
        final(out)@ == old(out)@ + i16_le(v),
{
    let b = i16_bytes(v);
    out.push(b[0]);
    out.push(b[1]);
    assert(out@ =~= old(out)@ + i16_le(v));
}

/// Appends the little-endian bytes of `v`.
pub fn push_u32(out: &mut Vec<u8>, v: u32)
    ensures
        final(out)@ == old(out)@ + u32_le(v),
{
    let b = u32_bytes(v);
    out.push(b[0]);
    out.push(b[1]);
    out.push(b[2]);
    out.push(b[3]);
    assert(out@ =~= old(out)@ + u32_le(v));
}

/// Appends the little-endian two's complement bytes of `v`.
pub fn push_i32(out: &mut Vec<u8>, v: i32)
    ensures
        final(out)@ == old(out)@ + i32_le(v),
{
    let b = i32_bytes(v);
    out.push(b[0]);
    out.push(b[1]);
    out.push(b[2]);
    out.push(b[3]);
    assert(out@ =~= old(out)@ + i32_le(v));
}

/// Appends `n` zero bytes.
pub fn push_zeros(out: &mut Vec<u8>, n: usize)
    ensures
        final(out)@ == old(out)@ + zeros(n as int),
{
    let mut i: usize = 0;
    while i < n
        invariant
            i <= n,
            out@ == old(out)@ + zeros(i as int),
        decreases n - i,
    {
        out.push(0u8);
        i += 1;
        assert(out@ =~= old(out)@ + zeros(i as int));
    }
}

/// Appends the field of `width` bytes that stands for the text `s`.
pub fn push_text(out: &mut Vec<u8>, width: usize, s: &str)
    ensures
        final(out)@ == old(out)@ + text_field(s@, width as int),
{
    let bytes = s.as_bytes();
    let ghost field = text_field(s@, width as int);
    let mut i: usize = 0;
    while i < width
        invariant
            i <= width,
            bytes@ == encode_utf8(s@),
            field == text_field(s@, width as int),
            out@ == old(out)@ + field.take(i as int),
        decreases width - i,
    {
        if i < bytes.len() {
            out.push(bytes[i]);
        } else {
            out.push(0u8);
        }
        i += 1;
        assert(out@ =~= old(out)@ + field.take(i as int));
    }
    assert(field.take(width as int) =~= field);
}

/// The text that the field `bytes` holds.
pub fn decode_text(bytes: &[u8]) -> (r: I2Result<String>)
    ensures
        match r {
            Ok(s) => text_ok(bytes@) && s@ == text_of(bytes@),
            Err(e) => !text_ok(bytes@) && e == I2Error::NonUtf8String,
        },
{
    let mut n: usize = 0;
    while n < bytes.len() && bytes[n] != 0
        invariant
            n <= bytes.len(),
            forall|i: int| 0 <= i < n ==> bytes@[i] != 0,
        decreases bytes.len() - n,
    {
        n += 1;
    }
    proof {
        lemma_text_len(bytes@, n as int);
    }
    match core::str::from_utf8(slice_subrange(bytes, 0, n)) {
        Ok(s) => Ok(s.to_owned()),
        Err(e) => Err(I2Error::from(e)),
    }
}

/// Writes `data` into `sink` at position `pos`.
pub fn put(sink: &mut Vec<u8>, pos: usize, data: &[u8])
    requires
        pos + data@.len() <= usize::MAX,
    ensures
        final(sink)@ == write_at(old(sink)@, pos as int, data@),
{
    while sink.len() < pos
        invariant
            sink@.len() <= pos || sink@.len() == old(sink)@.len(),
            sink@.len() >= old(sink)@.len(),
            sink@ == old(sink)@ + zeros(sink@.len() - old(sink)@.len()),
        decreases pos - sink@.len(),
    {
        sink.push(0u8);
        assert(sink@ =~= old(sink)@ + zeros(sink@.len() - old(sink)@.len()));
    }
    let ghost padded = sink@;
    let mut i: usize = 0;
    while i < data.len()
        invariant
            i <= data@.len(),
            pos + data@.len() <= usize::MAX,
            padded.len() >= pos,
            sink@.len() >= padded.len(),
            sink@ == write_at(padded, pos as int, data@.take(i as int)),
        decreases data@.len() - i,
    {
        if pos + i < sink.len() {
            sink[pos + i] = data[i];
        } else {
            sink.push(data[i]);
        }
        i += 1;
        assert(sink@ =~= write_at(padded, pos as int, data@.take(i as int)));
    }
    assert(data@.take(data@.len() as int) =~= data@);
    assert(sink@ =~= write_at(old(sink)@, pos as int, data@));
}

} // verus!
