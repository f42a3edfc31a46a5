//! The variable-length integer encoding: a leading marker byte gives the
//! total width of the field.
use vstd::prelude::*;

use crate::DecodeError;
use crate::Endianness;
use crate::source::ByteSource;
use crate::words::word16;
use crate::words::word16_bytes;
use crate::words::word32;
use crate::words::word32_bytes;
use crate::words::word64;
use crate::words::word64_bytes;
use crate::words::lemma_word16_round_trip;
use crate::words::lemma_word32_round_trip;
use crate::words::lemma_word64_round_trip;

verus! {

/// What the varint at the front of `s` denotes: its value and the number of
/// bytes it occupies, or `None` when `s` ends before the encoding is
/// complete. A leading byte below 0xFD is the value itself; 0xFD, 0xFE and
/// 0xFF prefix a two-, four- or eight-byte value in byte order `e`. An
/// encoding wider than the value needs is accepted as-is.
pub open spec fn parse_varint(e: Endianness, s: Seq<u8>) -> Option<(u64, int)> {
    if s.len() < 1 {
        None
    } else if s[0] < 0xFD {
        Some((s[0] as u64, 1))
    } else if s[0] == 0xFD {
        if s.len() >= 3 {
            Some((word16(e, s.subrange(1, 3)) as u64, 3))
        } else {
            None
        }
    } else if s[0] == 0xFE {
        if s.len() >= 5 {
            Some((word32(e, s.subrange(1, 5)) as u64, 5))
        } else {
            None
        }
    } else {
        if s.len() >= 9 {
            Some((word64(e, s.subrange(1, 9)), 9))
        } else {
            None
        }
    }
}

/// The shortest encoding of `v` under the prefix rule, in byte order `e`:
/// one bare byte below 0xFD, else a marker byte followed by the two-, four-
/// or eight-byte field that the range of `v` asks for.
pub open spec fn encode_varint_spec(e: Endianness, v: u64) -> Seq<u8> {
    if v < 0xFD {
        seq![v as u8]
    } else if v <= 0xFFFF {
        seq![0xFDu8] + word16_bytes(e, v as u16)
    } else if v <= 0xFFFF_FFFF {
        seq![0xFEu8] + word32_bytes(e, v as u32)
    } else {
        seq![0xFFu8] + word64_bytes(e, v)
    }
}

impl ByteSource {
    /// Reads a varint in byte order `e`: one marker byte, then as many more
    /// bytes as the marker calls for.
    pub fn read_varint(&mut self, e: Endianness) -> (r: Result<u64, DecodeError>)
        ensures
            final(self).stream() == old(self).stream(),
            match r {
                Ok(v) => match parse_varint(e, old(self)@) {
                    Some(p) => v == p.0 && final(self)@ == old(self)@.skip(p.1),
                    None => false,
                },
                Err(err) => parse_varint(e, old(self)@) is None && err
                    == DecodeError::TruncatedInput && final(self)@.len() <= old(self)@.len(),
            },
    {
        let b0 = match self.read_u8() {
            Ok(b) => b,
            Err(err) => {
                return Err(err);
            },
        };
        if b0 < 0xFD {
            Ok(b0 as u64)
        } else if b0 == 0xFD {
            match self.read_u16(e) {
                Ok(v) => {
                    proof {
                        assert(old(self)@.skip(1).subrange(0, 2) =~= old(self)@.subrange(1, 3));
                        assert(old(self)@.skip(1).skip(2) =~= old(self)@.skip(3));
                    }
                    Ok(v as u64)
                },
                Err(err) => Err(err),
            }
        } else if b0 == 0xFE {
            match self.read_u32(e) {
                Ok(v) => {
                    proof {
                        assert(old(self)@.skip(1).subrange(0, 4) =~= old(self)@.subrange(1, 5));
                        assert(old(self)@.skip(1).skip(4) =~= old(self)@.skip(5));
                    }
                    Ok(v as u64)
                },
                Err(err) => Err(err),
            }
        } else {
            match self.read_u64(e) {
                Ok(v) => {
                    proof {
                        assert(old(self)@.skip(1).subrange(0, 8) =~= old(self)@.subrange(1, 9));
                        assert(old(self)@.skip(1).skip(8) =~= old(self)@.skip(9));
                    }
                    Ok(v)
                },
                Err(err) => Err(err),
            }
        }
    }
}

/// Appends the two-byte field for `x` in byte order `e`.
fn push_word16(out: &mut Vec<u8>, e: Endianness, x: u16)
    ensures
        final(out)@ == old(out)@ + word16_bytes(e, x),
{
    let lo = (x % 0x100) as u8;
    let hi = (x / 0x100 % 0x100) as u8;
    match e {
        Endianness::Little => {
            out.push(lo);
            out.push(hi);
        },
        Endianness::Big => {
            out.push(hi);
            out.push(lo);
        },
    }
    proof {
        assert(out@ =~= old(out)@ + word16_bytes(e, x));
    }
}

/// Appends the four-byte field for `x` in byte order `e`.
fn push_word32(out: &mut Vec<u8>, e: Endianness, x: u32)
    ensures
        final(out)@ == old(out)@ + word32_bytes(e, x),
{
    let b0 = (x % 0x100) as u8;
    let b1 = (x / 0x100 % 0x100) as u8;
    let b2 = (x / 0x1_0000 % 0x100) as u8;
    let b3 = (x / 0x100_0000 % 0x100) as u8;
    match e {
        Endianness::Little => {
            out.push(b0);
            out.push(b1);
            out.push(b2);
            out.push(b3);
        },
        Endianness::Big => {
            out.push(b3);
            out.push(b2);
            out.push(b1);
            out.push(b0);
        },
    }
    proof {
        assert(out@ =~= old(out)@ + word32_bytes(e, x));
    }
}

/// Appends the eight-byte field for `x` in byte order `e`.
fn push_word64(out: &mut Vec<u8>, e: Endianness, x: u64)
    ensures
        final(out)@ == old(out)@ + word64_bytes(e, x),
{
    let b0 = (x % 0x100) as u8;
    let b1 = (x / 0x100 % 0x100) as u8;
    let b2 = (x / 0x1_0000 % 0x100) as u8;
    let b3 = (x / 0x100_0000 % 0x100) as u8;
    let b4 = (x / 0x1_0000_0000 % 0x100) as u8;
    let b5 = (x / 0x100_0000_0000 % 0x100) as u8;
    let b6 = (x / 0x1_0000_0000_0000 % 0x100) as u8;
    let b7 = (x / 0x100_0000_0000_0000 % 0x100) as u8;
    match e {
        Endianness::Little => {
            out.push(b0);
            out.push(b1);
            out.push(b2);
            out.push(b3);
            out.push(b4);
            out.push(b5);
            out.push(b6);
            out.push(b7);
        },
        Endianness::Big => {
            out.push(b7);
            out.push(b6);
            out.push(b5);
            out.push(b4);
            out.push(b3);
            out.push(b2);
            out.push(b1);
            out.push(b0);
        },
    }
    proof {
        assert(out@ =~= old(out)@ + word64_bytes(e, x));
    }
}

/// Encodes `v` with the prefix rule in byte order `e`, using the narrowest
/// width that holds it.
pub fn encode_varint(e: Endianness, v: u64) -> (r: Vec<u8>)
    ensures
        r@ == encode_varint_spec(e, v),
{
    let mut out: Vec<u8> = Vec::new();
    if v < 0xFD {
        out.push(v as u8);
        proof {
            assert(out@ =~= encode_varint_spec(e, v));
        }
    } else if v <= 0xFFFF {
        out.push(0xFD);
        push_word16(&mut out, e, v as u16);
        proof {
            assert(out@ =~= encode_varint_spec(e, v));
        }
    } else if v <= 0xFFFF_FFFF {
        out.push(0xFE);
        push_word32(&mut out, e, v as u32);
        proof {
            assert(out@ =~= encode_varint_spec(e, v));
        }
    } else {
        out.push(0xFF);
        push_word64(&mut out, e, v);
        proof {
            assert(out@ =~= encode_varint_spec(e, v));
        }
    }
    out
}

/// Law: varint round-trip. For every value, in every byte order, encoding
/// with the prefix rule and decoding — even with further stream bytes after
/// the encoding — returns exactly that value and consumes exactly the
/// encoding.
pub proof fn lemma_varint_round_trip(e: Endianness, v: u64, rest: Seq<u8>)
    ensures
        parse_varint(e, encode_varint_spec(e, v) + rest) == Some(
            (v, encode_varint_spec(e, v).len() as int),
        ),
{
    let enc = encode_varint_spec(e, v);
    let s = enc + rest;
    if v < 0xFD {
        assert(s[0] == v as u8);
    } else if v <= 0xFFFF {
        lemma_word16_round_trip(e, v as u16);
        assert(s[0] == 0xFDu8);
        assert(s.subrange(1, 3) =~= word16_bytes(e, v as u16));
    } else if v <= 0xFFFF_FFFF {
        lemma_word32_round_trip(e, v as u32);
        assert(s[0] == 0xFEu8);
        assert(s.subrange(1, 5) =~= word32_bytes(e, v as u32));
    } else {
        lemma_word64_round_trip(e, v);
        assert(s[0] == 0xFFu8);
        assert(s.subrange(1, 9) =~= word64_bytes(e, v));
    }
}

} // verus!
