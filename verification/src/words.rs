//! Fixed-width integer fields: what a run of bytes means in either byte
//! order, and the trusted readers that decode them with `byteorder`.
use vstd::prelude::*;

use crate::Endianness;

verus! {

/// The first two bytes of `s` read as a little-endian integer: the first
/// byte is the least significant.
pub open spec fn le16(s: Seq<u8>) -> u16
    recommends
        s.len() == 2,
{
    (s[0] as int + s[1] as int * 0x100) as u16
}

/// The first four bytes of `s` read as a little-endian integer.
pub open spec fn le32(s: Seq<u8>) -> u32
    recommends
        s.len() == 4,
{
    (s[0] as int + s[1] as int * 0x100 + s[2] as int * 0x1_0000 + s[3] as int * 0x100_0000) as u32
}

/// The first eight bytes of `s` read as a little-endian integer.
pub open spec fn le64(s: Seq<u8>) -> u64
    recommends
        s.len() == 8,
{
    (s[0] as int + s[1] as int * 0x100 + s[2] as int * 0x1_0000 + s[3] as int * 0x100_0000
        + s[4] as int * 0x1_0000_0000 + s[5] as int * 0x100_0000_0000
        + s[6] as int * 0x1_0000_0000_0000 + s[7] as int * 0x100_0000_0000_0000) as u64
}

/// Two bytes read as a big-endian integer: the first byte is the most
/// significant.
pub open spec fn be16(s: Seq<u8>) -> u16
    recommends
        s.len() == 2,
{
    le16(s.reverse())
}

/// Four bytes read as a big-endian integer.
pub open spec fn be32(s: Seq<u8>) -> u32
    recommends
        s.len() == 4,
{
    le32(s.reverse())
}

/// Eight bytes read as a big-endian integer.
pub open spec fn be64(s: Seq<u8>) -> u64
    recommends
        s.len() == 8,
{
    le64(s.reverse())
}

/// The value of a two-byte field in byte order `e`.
pub open spec fn word16(e: Endianness, s: Seq<u8>) -> u16
    recommends
        s.len() == 2,
{
    match e {
        Endianness::Little => le16(s),
        Endianness::Big => be16(s),
    }
}

/// The value of a four-byte field in byte order `e`.
pub open spec fn word32(e: Endianness, s: Seq<u8>) -> u32
    recommends
        s.len() == 4,
{
    match e {
        Endianness::Little => le32(s),
        Endianness::Big => be32(s),
    }
}

/// The value of an eight-byte field in byte order `e`.
pub open spec fn word64(e: Endianness, s: Seq<u8>) -> u64
    recommends
        s.len() == 8,
{
    match e {
        Endianness::Little => le64(s),
        Endianness::Big => be64(s),
    }
}

/// The two-byte little-endian encoding of `x`.
pub open spec fn le16_bytes(x: u16) -> Seq<u8> {
    seq![(x as int % 0x100) as u8, (x as int / 0x100 % 0x100) as u8]
}

/// The four-byte little-endian encoding of `x`.
pub open spec fn le32_bytes(x: u32) -> Seq<u8> {
    seq![
        (x as int % 0x100) as u8,
        (x as int / 0x100 % 0x100) as u8,
        (x as int / 0x1_0000 % 0x100) as u8,
        (x as int / 0x100_0000 % 0x100) as u8,
    ]
}

/// The eight-byte little-endian encoding of `x`.
pub open spec fn le64_bytes(x: u64) -> Seq<u8> {
    seq![
        (x as int % 0x100) as u8,
        (x as int / 0x100 % 0x100) as u8,
        (x as int / 0x1_0000 % 0x100) as u8,
        (x as int / 0x100_0000 % 0x100) as u8,
        (x as int / 0x1_0000_0000 % 0x100) as u8,
        (x as int / 0x100_0000_0000 % 0x100) as u8,
        (x as int / 0x1_0000_0000_0000 % 0x100) as u8,
        (x as int / 0x100_0000_0000_0000 % 0x100) as u8,
    ]
}

/// The two-byte encoding of `x` in byte order `e`.
pub open spec fn word16_bytes(e: Endianness, x: u16) -> Seq<u8> {
    match e {
        Endianness::Little => le16_bytes(x),
        Endianness::Big => le16_bytes(x).reverse(),
    }
}

/// The four-byte encoding of `x` in byte order `e`.
pub open spec fn word32_bytes(e: Endianness, x: u32) -> Seq<u8> {
    match e {
        Endianness::Little => le32_bytes(x),
        Endianness::Big => le32_bytes(x).reverse(),
    }
}

/// The eight-byte encoding of `x` in byte order `e`.
pub open spec fn word64_bytes(e: Endianness, x: u64) -> Seq<u8> {
    match e {
        Endianness::Little => le64_bytes(x),
        Endianness::Big => le64_bytes(x).reverse(),
    }
}

/// Encoding a value and reading it back in the same two-byte order returns
/// the value.
pub proof fn lemma_word16_round_trip(e: Endianness, x: u16)
    ensures
        word16_bytes(e, x).len() == 2,
        word16(e, word16_bytes(e, x)) == x,
{
    let s = le16_bytes(x);
    assert(x % 0x100 + (x / 0x100 % 0x100) * 0x100 == x) by (bit_vector);
    match e {
        Endianness::Little => {
        },
        Endianness::Big => {
            assert(s.reverse().reverse() =~= s);
        },
    }
}

/// Encoding a value and reading it back in the same four-byte order returns
/// the value.
pub proof fn lemma_word32_round_trip(e: Endianness, x: u32)
    ensures
        word32_bytes(e, x).len() == 4,
        word32(e, word32_bytes(e, x)) == x,
{
    let s = le32_bytes(x);
    assert(x % 0x100 + (x / 0x100 % 0x100) * 0x100 + (x / 0x1_0000 % 0x100) * 0x1_0000 + (x
        / 0x100_0000 % 0x100) * 0x100_0000 == x) by (bit_vector);
    match e {
        Endianness::Little => {
        },
        Endianness::Big => {
            assert(s.reverse().reverse() =~= s);
        },
    }
}

/// Encoding a value and reading it back in the same eight-byte order returns
/// the value.
pub proof fn lemma_word64_round_trip(e: Endianness, x: u64)
    ensures
        word64_bytes(e, x).len() == 8,
        word64(e, word64_bytes(e, x)) == x,
{
    let s = le64_bytes(x);
    assert(x % 0x100 + (x / 0x100 % 0x100) * 0x100 + (x / 0x1_0000 % 0x100) * 0x1_0000 + (x
        / 0x100_0000 % 0x100) * 0x100_0000 + (x / 0x1_0000_0000 % 0x100) * 0x1_0000_0000 + (x
        / 0x100_0000_0000 % 0x100) * 0x100_0000_0000 + (x / 0x1_0000_0000_0000 % 0x100)
        * 0x1_0000_0000_0000 + (x / 0x100_0000_0000_0000 % 0x100) * 0x100_0000_0000_0000 == x)
        by (bit_vector);
    match e {
        Endianness::Little => {
        },
        Endianness::Big => {
            assert(s.reverse().reverse() =~= s);
        },
    }
}

/// Relies on `byteorder::LittleEndian::read_u16`: the first two bytes of the
/// given slice as a little-endian integer.
#[verifier::external_body]
pub(crate) fn read_word16_le(data: &Vec<u8>, pos: usize) -> (r: u16)
    requires
        pos as int + 2 <= data@.len(),
    ensures
        r == le16(data@.subrange(pos as int, pos as int + 2)),
{
    <byteorder::LittleEndian as byteorder::ByteOrder>::read_u16(&data[pos..pos + 2])
}

/// Relies on `byteorder::LittleEndian::read_u32`: the first four bytes of the
/// given slice as a little-endian integer.
#[verifier::external_body]
pub(crate) fn read_word32_le(data: &Vec<u8>, pos: usize) -> (r: u32)
    requires
        pos as int + 4 <= data@.len(),
    ensures
        r == le32(data@.subrange(pos as int, pos as int + 4)),
{
    <byteorder::LittleEndian as byteorder::ByteOrder>::read_u32(&data[pos..pos + 4])
}

/// Relies on `byteorder::LittleEndian::read_u64`: the first eight bytes of
/// the given slice as a little-endian integer.
#[verifier::external_body]
pub(crate) fn read_word64_le(data: &Vec<u8>, pos: usize) -> (r: u64)
    requires
        pos as int + 8 <= data@.len(),
    ensures
        r == le64(data@.subrange(pos as int, pos as int + 8)),
{
    <byteorder::LittleEndian as byteorder::ByteOrder>::read_u64(&data[pos..pos + 8])
}

/// Relies on `byteorder::BigEndian::read_u16`: the first two bytes of the
/// given slice as a big-endian integer.
#[verifier::external_body]
pub(crate) fn read_word16_be(data: &Vec<u8>, pos: usize) -> (r: u16)
    requires
        pos as int + 2 <= data@.len(),
    ensures
        r == be16(data@.subrange(pos as int, pos as int + 2)),
{
    <byteorder::BigEndian as byteorder::ByteOrder>::read_u16(&data[pos..pos + 2])
}

/// Relies on `byteorder::BigEndian::read_u32`: the first four bytes of the
/// given slice as a big-endian integer.
#[verifier::external_body]
pub(crate) fn read_word32_be(data: &Vec<u8>, pos: usize) -> (r: u32)
    requires
        pos as int + 4 <= data@.len(),
    ensures
        r == be32(data@.subrange(pos as int, pos as int + 4)),
{
    <byteorder::BigEndian as byteorder::ByteOrder>::read_u32(&data[pos..pos + 4])
}

/// Relies on `byteorder::BigEndian::read_u64`: the first eight bytes of the
/// given slice as a big-endian integer.
#[verifier::external_body]
pub(crate) fn read_word64_be(data: &Vec<u8>, pos: usize) -> (r: u64)
    requires
        pos as int + 8 <= data@.len(),
    ensures
        r == be64(data@.subrange(pos as int, pos as int + 8)),
{
    <byteorder::BigEndian as byteorder::ByteOrder>::read_u64(&data[pos..pos + 8])
}

} // verus!
