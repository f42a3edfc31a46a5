//! The block decoder: the wire layout of blocks, transactions, inputs and
//! outputs as specifications over byte sequences, and the executable
//! decoders proved against them.
use vstd::prelude::*;

use crate::DecodeError;
use crate::Endianness;
use crate::MAGIC;
use crate::records::Block;
use crate::records::BlockHeader;
use crate::records::BlockModel;
use crate::records::HeaderModel;
use crate::records::InputModel;
use crate::records::OutputModel;
use crate::records::Transaction;
use crate::records::TxInput;
use crate::records::TxModel;
use crate::records::TxOutput;
use crate::source::ByteSource;
use crate::varint::parse_varint;
use crate::words::word32;
use crate::words::word64;

verus! {

/// Wire layout of one transaction input at the front of `s`: a 32-byte
/// previous-transaction hash (byte-reversed into display order), a four-byte
/// output index, a varint script length, that many opaque script bytes, and
/// a four-byte sequence number. `None` when `s` ends before the last field.
pub open spec fn parse_input(e: Endianness, s: Seq<u8>) -> Option<(InputModel, int)> {
    if s.len() < 36 {
        None
    } else {
        match parse_varint(e, s.skip(36)) {
            None => None,
            Some((slen, a)) => {
                let script_end = 36 + a + slen as int;
                if s.len() >= script_end + 4 {
                    Some(
                        (
                            InputModel {
                                prev_tx_hash: s.subrange(0, 32).reverse(),
                                out_index: word32(e, s.subrange(32, 36)),
                                script: s.subrange(36 + a, script_end),
                                sequence: word32(e, s.subrange(script_end, script_end + 4)),
                            },
                            script_end + 4,
                        ),
                    )
                } else {
                    None
                }
            },
        }
    }
}

/// Wire layout of one transaction output at the front of `s`: an eight-byte
/// value, a varint script length, and that many opaque script bytes.
pub open spec fn parse_output(e: Endianness, s: Seq<u8>) -> Option<(OutputModel, int)> {
    if s.len() < 8 {
        None
    } else {
        match parse_varint(e, s.skip(8)) {
            None => None,
            Some((slen, a)) => {
                let script_end = 8 + a + slen as int;
                if s.len() >= script_end {
                    Some(
                        (
                            OutputModel {
                                value: word64(e, s.subrange(0, 8)),
                                script: s.subrange(8 + a, script_end),
                            },
                            script_end,
                        ),
                    )
                } else {
                    None
                }
            },
        }
    }
}

/// `n` consecutive transaction inputs at the front of `s`, in stream order,
/// with the total bytes they occupy.
pub open spec fn parse_inputs(e: Endianness, s: Seq<u8>, n: nat) -> Option<(Seq<InputModel>, int)>
    decreases n,
{
    if n == 0 {
        Some((Seq::empty(), 0))
    } else {
        match parse_input(e, s) {
            None => None,
            Some((m, k)) => match parse_inputs(e, s.skip(k), (n - 1) as nat) {
                None => None,
                Some((ms, t)) => Some((seq![m] + ms, k + t)),
            },
        }
    }
}

/// `n` consecutive transaction outputs at the front of `s`, in stream order,
/// with the total bytes they occupy.
pub open spec fn parse_outputs(e: Endianness, s: Seq<u8>, n: nat) -> Option<(Seq<OutputModel>, int)>
    decreases n,
{
    if n == 0 {
        Some((Seq::empty(), 0))
    } else {
        match parse_output(e, s) {
            None => None,
            Some((m, k)) => match parse_outputs(e, s.skip(k), (n - 1) as nat) {
                None => None,
                Some((ms, t)) => Some((seq![m] + ms, k + t)),
            },
        }
    }
}

/// Wire layout of one transaction at the front of `s`: a four-byte version,
/// a varint input count and that many inputs, a varint output count and that
/// many outputs, and a four-byte lock time.
#[verifier::opaque]
pub open spec fn parse_tx(e: Endianness, s: Seq<u8>) -> Option<(TxModel, int)> {
    if s.len() < 4 {
        None
    } else {
        match parse_varint(e, s.skip(4)) {
            None => None,
            Some((nin, a)) => match parse_inputs(e, s.skip(4 + a), nin as nat) {
                None => None,
                Some((ins, b)) => match parse_varint(e, s.skip(4 + a + b)) {
                    None => None,
                    Some((nout, c)) => match parse_outputs(e, s.skip(4 + a + b + c), nout as nat) {
                        None => None,
                        Some((outs, d)) => if s.len() >= 8 + a + b + c + d {
                            Some(
                                (
                                    TxModel {
                                        version: word32(e, s.subrange(0, 4)),
                                        inputs: ins,
                                        outputs: outs,
                                        lock_time: word32(
                                            e,
                                            s.subrange(4 + a + b + c + d, 8 + a + b + c + d),
                                        ),
                                    },
                                    8 + a + b + c + d,
                                ),
                            )
                        } else {
                            None
                        },
                    },
                },
            },
        }
    }
}

/// `n` consecutive transactions at the front of `s`, in stream order, with
/// the total bytes they occupy.
pub open spec fn parse_txs(e: Endianness, s: Seq<u8>, n: nat) -> Option<(Seq<TxModel>, int)>
    decreases n,
{
    if n == 0 {
        Some((Seq::empty(), 0))
    } else {
        match parse_tx(e, s) {
            None => None,
            Some((m, k)) => match parse_txs(e, s.skip(k), (n - 1) as nat) {
                None => None,
                Some((ms, t)) => Some((seq![m] + ms, k + t)),
            },
        }
    }
}

/// How the block at the front of `s` decodes: `Done` carries the model and
/// the bytes the field walk consumed; `BadMagic` means four bytes are there
/// but they are not the sentinel; `Truncated` means `s` ends mid-field.
pub enum BlockParse {
    Done(BlockModel, int),
    BadMagic,
    Truncated,
}

/// Wire layout of one block at the front of `s`: the magic sentinel, the
/// declared size, the six remaining header fields, a varint transaction
/// count, and that many transactions. The two 32-byte hash fields are
/// byte-reversed into display order.
#[verifier::opaque]
pub open spec fn parse_block(e: Endianness, s: Seq<u8>) -> BlockParse {
    if s.len() < 4 {
        BlockParse::Truncated
    } else if word32(e, s.subrange(0, 4)) != MAGIC {
        BlockParse::BadMagic
    } else if s.len() < 88 {
        BlockParse::Truncated
    } else {
        let h = HeaderModel {
            magic: word32(e, s.subrange(0, 4)),
            size: word32(e, s.subrange(4, 8)),
            version: word32(e, s.subrange(8, 12)),
            prev_hash: s.subrange(12, 44).reverse(),
            merkle_root: s.subrange(44, 76).reverse(),
            timestamp: word32(e, s.subrange(76, 80)),
            bits: word32(e, s.subrange(80, 84)),
            nonce: word32(e, s.subrange(84, 88)),
        };
        match parse_varint(e, s.skip(88)) {
            None => BlockParse::Truncated,
            Some((txn, a)) => match parse_txs(e, s.skip(88 + a), txn as nat) {
                None => BlockParse::Truncated,
                Some((txs, b)) => BlockParse::Done(
                    BlockModel { header: h, transactions: txs },
                    88 + a + b,
                ),
            },
        }
    }
}

/// Glues one parsed item onto a parse of the rest of a run: the models are
/// prepended and the consumed counts add.
pub open spec fn extend_parse<M>(prefix: Seq<M>, consumed: int, rest: Option<(Seq<M>, int)>) -> Option<
    (Seq<M>, int),
> {
    match rest {
        None => None,
        Some((ms, t)) => Some((prefix + ms, consumed + t)),
    }
}

/// Skipping twice from the front is one longer skip.
proof fn lemma_skip_skip(s: Seq<u8>, a: int, b: int)
    requires
        0 <= a,
        0 <= b,
        a + b <= s.len(),
    ensures
        s.skip(a).skip(b) =~= s.skip(a + b),
{
}

/// A subrange of a skipped sequence relocates to the original.
proof fn lemma_skip_subrange(s: Seq<u8>, a: int, i: int, j: int)
    requires
        0 <= a,
        0 <= i <= j,
        a + j <= s.len(),
    ensures
        s.skip(a).subrange(i, j) =~= s.subrange(a + i, a + j),
{
}

/// A varint occupies between one and nine bytes, all within the stream.
pub proof fn lemma_parse_varint_bounds(e: Endianness, s: Seq<u8>)
    ensures
        parse_varint(e, s) matches Some(p) ==> 1 <= p.1 <= 9 && p.1 <= s.len(),
{
}

/// A parsed input occupies at least 41 bytes, all within the stream.
pub proof fn lemma_parse_input_bounds(e: Endianness, s: Seq<u8>)
    ensures
        parse_input(e, s) matches Some(p) ==> 41 <= p.1 <= s.len(),
{
    lemma_parse_varint_bounds(e, s.skip(36));
}

/// A parsed output occupies at least 9 bytes, all within the stream.
pub proof fn lemma_parse_output_bounds(e: Endianness, s: Seq<u8>)
    ensures
        parse_output(e, s) matches Some(p) ==> 9 <= p.1 <= s.len(),
{
    lemma_parse_varint_bounds(e, s.skip(8));
}

/// A parsed run of inputs lies within the stream.
pub proof fn lemma_parse_inputs_bounds(e: Endianness, s: Seq<u8>, n: nat)
    ensures
        parse_inputs(e, s, n) matches Some(p) ==> 0 <= p.1 <= s.len(),
    decreases n,
{
    if n > 0 {
        lemma_parse_input_bounds(e, s);
        match parse_input(e, s) {
            Some((m, k)) => {
                lemma_parse_inputs_bounds(e, s.skip(k), (n - 1) as nat);
            },
            None => {
            },
        }
    }
}

/// A parsed run of outputs lies within the stream.
pub proof fn lemma_parse_outputs_bounds(e: Endianness, s: Seq<u8>, n: nat)
    ensures
        parse_outputs(e, s, n) matches Some(p) ==> 0 <= p.1 <= s.len(),
    decreases n,
{
    if n > 0 {
        lemma_parse_output_bounds(e, s);
        match parse_output(e, s) {
            Some((m, k)) => {
                lemma_parse_outputs_bounds(e, s.skip(k), (n - 1) as nat);
            },
            None => {
            },
        }
    }
}

/// A parsed transaction occupies at least 10 bytes, all within the stream.
pub proof fn lemma_parse_tx_bounds(e: Endianness, s: Seq<u8>)
    ensures
        parse_tx(e, s) matches Some(p) ==> 10 <= p.1 <= s.len(),
{
    reveal(parse_tx);
    if s.len() >= 4 {
        lemma_parse_varint_bounds(e, s.skip(4));
        match parse_varint(e, s.skip(4)) {
            Some((nin, a)) => {
                lemma_parse_inputs_bounds(e, s.skip(4 + a), nin as nat);
                match parse_inputs(e, s.skip(4 + a), nin as nat) {
                    Some((ins, b)) => {
                        lemma_parse_varint_bounds(e, s.skip(4 + a + b));
                        match parse_varint(e, s.skip(4 + a + b)) {
                            Some((nout, c)) => {
                                lemma_parse_outputs_bounds(e, s.skip(4 + a + b + c), nout as nat);
                            },
                            None => {
                            },
                        }
                    },
                    None => {
                    },
                }
            },
            None => {
            },
        }
    }
}

/// A parsed run of transactions lies within the stream.
pub proof fn lemma_parse_txs_bounds(e: Endianness, s: Seq<u8>, n: nat)
    ensures
        parse_txs(e, s, n) matches Some(p) ==> 0 <= p.1 <= s.len(),
    decreases n,
{
    if n > 0 {
        lemma_parse_tx_bounds(e, s);
        match parse_tx(e, s) {
            Some((m, k)) => {
                lemma_parse_txs_bounds(e, s.skip(k), (n - 1) as nat);
            },
            None => {
            },
        }
    }
}

/// The bytes of `v` in reverse order.
fn reversed(v: &Vec<u8>) -> (r: Vec<u8>)
    ensures
        r@ == v@.reverse(),
{
    let n = v.len();
    let mut r: Vec<u8> = Vec::new();
    let mut i: usize = 0;
    while i < n
        invariant
            i <= n,
            n == v@.len(),
            r@.len() == i,
            forall|j: int| 0 <= j < i ==> r@[j] == v@[n - 1 - j],
        decreases n - i,
    {
        r.push(v[n - 1 - i]);
        i = i + 1;
    }
    proof {
        assert(r@ =~= v@.reverse());
    }
    r
}

/// Decodes one transaction input from the front of the stream.
pub fn decode_input(src: &mut ByteSource, e: Endianness) -> (r: Result<TxInput, DecodeError>)
    ensures
        final(src).stream() == old(src).stream(),
        match r {
            Ok(v) => match parse_input(e, old(src)@) {
                Some(p) => v@ == p.0 && final(src)@ == old(src)@.skip(p.1),
                None => false,
            },
            Err(err) => parse_input(e, old(src)@) is None && err == DecodeError::TruncatedInput
                && final(src)@.len() <= old(src)@.len(),
        },
{
    let ghost s0 = src@;
    let hash_wire = match src.read_exact(32) {
        Ok(x) => x,
        Err(err) => {
            return Err(err);
        },
    };
    let out_index = match src.read_u32(e) {
        Ok(x) => x,
        Err(err) => {
            return Err(err);
        },
    };
    proof {
        lemma_skip_subrange(s0, 32, 0, 4);
        lemma_skip_skip(s0, 32, 4);
    }
    let slen = match src.read_varint(e) {
        Ok(x) => x,
        Err(err) => {
            return Err(err);
        },
    };
    let ghost a = parse_varint(e, s0.skip(36))->Some_0.1;
    proof {
        lemma_parse_varint_bounds(e, s0.skip(36));
        lemma_skip_skip(s0, 36, a);
    }
    let rem = src.bytes_remaining();
    if slen > rem as u64 {
        proof {
            assert(parse_input(e, s0) is None);
        }
        return Err(DecodeError::TruncatedInput);
    }
    let script = match src.read_exact(slen as usize) {
        Ok(x) => x,
        Err(err) => {
            return Err(err);
        },
    };
    proof {
        lemma_skip_subrange(s0, 36 + a, 0, slen as int);
        lemma_skip_skip(s0, 36 + a, slen as int);
    }
    let sequence = match src.read_u32(e) {
        Ok(x) => x,
        Err(err) => {
            return Err(err);
        },
    };
    let prev_tx_hash = reversed(&hash_wire);
    proof {
        let end = 36 + a + slen as int;
        lemma_skip_subrange(s0, end, 0, 4);
        lemma_skip_skip(s0, end, 4);
    }
    Ok(TxInput { prev_tx_hash, out_index, script, sequence })
}

/// Decodes one transaction output from the front of the stream.
pub fn decode_output(src: &mut ByteSource, e: Endianness) -> (r: Result<TxOutput, DecodeError>)
    ensures
        final(src).stream() == old(src).stream(),
        match r {
            Ok(v) => match parse_output(e, old(src)@) {
                Some(p) => v@ == p.0 && final(src)@ == old(src)@.skip(p.1),
                None => false,
            },
            Err(err) => parse_output(e, old(src)@) is None && err == DecodeError::TruncatedInput
                && final(src)@.len() <= old(src)@.len(),
        },
{
    let ghost s0 = src@;
    let value = match src.read_u64(e) {
        Ok(x) => x,
        Err(err) => {
            return Err(err);
        },
    };
    let slen = match src.read_varint(e) {
        Ok(x) => x,
        Err(err) => {
            return Err(err);
        },
    };
    let ghost a = parse_varint(e, s0.skip(8))->Some_0.1;
    proof {
        lemma_parse_varint_bounds(e, s0.skip(8));
        lemma_skip_skip(s0, 8, a);
    }
    let rem = src.bytes_remaining();
    if slen > rem as u64 {
        proof {
            assert(parse_output(e, s0) is None);
        }
        return Err(DecodeError::TruncatedInput);
    }
    let script = match src.read_exact(slen as usize) {
        Ok(x) => x,
        Err(err) => {
            return Err(err);
        },
    };
    proof {
        lemma_skip_subrange(s0, 8 + a, 0, slen as int);
        lemma_skip_skip(s0, 8 + a, slen as int);
    }
    Ok(TxOutput { value, script })
}

/// Decodes `n` consecutive transaction inputs.
#[verifier::rlimit(100)]
pub fn decode_inputs(src: &mut ByteSource, e: Endianness, n: u64) -> (r: Result<
    Vec<TxInput>,
    DecodeError,
>)
    ensures
        final(src).stream() == old(src).stream(),
        match r {
            Ok(v) => match parse_inputs(e, old(src)@, n as nat) {
                Some(p) => v@.map_values(|x: TxInput| x@) == p.0 && final(src)@ == old(src)@.skip(
                    p.1,
                ),
                None => false,
            },
            Err(err) => parse_inputs(e, old(src)@, n as nat) is None && err
                == DecodeError::TruncatedInput && final(src)@.len() <= old(src)@.len(),
        },
{
    let ghost s0 = src@;
    let mut acc: Vec<TxInput> = Vec::new();
    let mut i: u64 = 0;
    let ghost mut consumed: int = 0;
    proof {
        assert(s0.skip(0) =~= s0);
        assert(acc@.map_values(|x: TxInput| x@) =~= Seq::<InputModel>::empty());
        match parse_inputs(e, s0, n as nat) {
            Some(q) => {
                assert(acc@.map_values(|x: TxInput| x@) + q.0 =~= q.0);
            },
            None => {
            },
        }
    }
    while i < n
        invariant
            s0 == old(src)@,
            src.stream() == old(src).stream(),
            i <= n,
            0 <= consumed <= s0.len(),
            src@ == s0.skip(consumed),
            parse_inputs(e, s0, n as nat) == extend_parse(
                acc@.map_values(|x: TxInput| x@),
                consumed,
                parse_inputs(e, src@, (n - i) as nat),
            ),
        decreases n - i,
    {
        let ghost sb = src@;
        let ghost pre = acc@.map_values(|x: TxInput| x@);
        let inp = match decode_input(src, e) {
            Ok(x) => x,
            Err(err) => {
                proof {
                    assert(parse_inputs(e, sb, (n - i) as nat) is None);
                    assert(parse_inputs(e, s0, n as nat) == extend_parse(
                        pre,
                        consumed,
                        parse_inputs(e, sb, (n - i) as nat),
                    ));
                    assert(parse_inputs(e, s0, n as nat) is None);
                    assert(sb.len() <= s0.len());
                }
                return Err(err);
            },
        };
        acc.push(inp);
        proof {
            let p = parse_input(e, sb)->Some_0;
            lemma_parse_input_bounds(e, sb);
            lemma_skip_skip(s0, consumed, p.1);
            assert(acc@.map_values(|x: TxInput| x@) =~= pre.push(p.0));
            assert(parse_inputs(e, sb, (n - i) as nat) == extend_parse(
                seq![p.0],
                p.1,
                parse_inputs(e, sb.skip(p.1), (n - i - 1) as nat),
            ));
            match parse_inputs(e, src@, (n - i - 1) as nat) {
                Some(q) => {
                    assert(pre + (seq![p.0] + q.0) =~= pre.push(p.0) + q.0);
                },
                None => {
                },
            }
            consumed = consumed + p.1;
        }
        i = i + 1;
    }
    proof {
        match parse_inputs(e, s0, n as nat) {
            Some(q) => {
                assert(acc@.map_values(|x: TxInput| x@) + Seq::<InputModel>::empty()
                    =~= acc@.map_values(|x: TxInput| x@));
            },
            None => {
            },
        }
    }
    Ok(acc)
}

/// Decodes `n` consecutive transaction outputs.
#[verifier::rlimit(100)]
pub fn decode_outputs(src: &mut ByteSource, e: Endianness, n: u64) -> (r: Result<
    Vec<TxOutput>,
    DecodeError,
>)
    ensures
        final(src).stream() == old(src).stream(),
        match r {
            Ok(v) => match parse_outputs(e, old(src)@, n as nat) {
                Some(p) => v@.map_values(|x: TxOutput| x@) == p.0 && final(src)@ == old(src)@.skip(
                    p.1,
                ),
                None => false,
            },
            Err(err) => parse_outputs(e, old(src)@, n as nat) is None && err
                == DecodeError::TruncatedInput && final(src)@.len() <= old(src)@.len(),
        },
{
    let ghost s0 = src@;
    let mut acc: Vec<TxOutput> = Vec::new();
    let mut i: u64 = 0;
    let ghost mut consumed: int = 0;
    proof {
        assert(s0.skip(0) =~= s0);
        assert(acc@.map_values(|x: TxOutput| x@) =~= Seq::<OutputModel>::empty());
        match parse_outputs(e, s0, n as nat) {
            Some(q) => {
                assert(acc@.map_values(|x: TxOutput| x@) + q.0 =~= q.0);
            },
            None => {
            },
        }
    }
    while i < n
        invariant
            s0 == old(src)@,
            src.stream() == old(src).stream(),
            i <= n,
            0 <= consumed <= s0.len(),
            src@ == s0.skip(consumed),
            parse_outputs(e, s0, n as nat) == extend_parse(
                acc@.map_values(|x: TxOutput| x@),
                consumed,
                parse_outputs(e, src@, (n - i) as nat),
            ),
        decreases n - i,
    {
        let ghost sb = src@;
        let ghost pre = acc@.map_values(|x: TxOutput| x@);
        let outp = match decode_output(src, e) {
            Ok(x) => x,
            Err(err) => {
                proof {
                    assert(parse_outputs(e, sb, (n - i) as nat) is None);
                    assert(parse_outputs(e, s0, n as nat) == extend_parse(
                        pre,
                        consumed,
                        parse_outputs(e, sb, (n - i) as nat),
                    ));
                    assert(parse_outputs(e, s0, n as nat) is None);
                    assert(sb.len() <= s0.len());
                }
                return Err(err);
            },
        };
        acc.push(outp);
        proof {
            let p = parse_output(e, sb)->Some_0;
            lemma_parse_output_bounds(e, sb);
            lemma_skip_skip(s0, consumed, p.1);
            assert(acc@.map_values(|x: TxOutput| x@) =~= pre.push(p.0));
            assert(parse_outputs(e, sb, (n - i) as nat) == extend_parse(
                seq![p.0],
                p.1,
                parse_outputs(e, sb.skip(p.1), (n - i - 1) as nat),
            ));
            match parse_outputs(e, src@, (n - i - 1) as nat) {
                Some(q) => {
                    assert(pre + (seq![p.0] + q.0) =~= pre.push(p.0) + q.0);
                },
                None => {
                },
            }
            consumed = consumed + p.1;
        }
        i = i + 1;
    }
    proof {
        match parse_outputs(e, s0, n as nat) {
            Some(q) => {
                assert(acc@.map_values(|x: TxOutput| x@) + Seq::<OutputModel>::empty()
                    =~= acc@.map_values(|x: TxOutput| x@));
            },
            None => {
            },
        }
    }
    Ok(acc)
}

/// Decodes one transaction from the front of the stream.
pub fn decode_tx(src: &mut ByteSource, e: Endianness) -> (r: Result<Transaction, DecodeError>)
    ensures
        final(src).stream() == old(src).stream(),
        match r {
            Ok(v) => match parse_tx(e, old(src)@) {
                Some(p) => v@ == p.0 && final(src)@ == old(src)@.skip(p.1),
                None => false,
            },
            Err(err) => parse_tx(e, old(src)@) is None && err == DecodeError::TruncatedInput
                && final(src)@.len() <= old(src)@.len(),
        },
{
    proof {
        reveal(parse_tx);
    }
    let ghost s0 = src@;
    let version = match src.read_u32(e) {
        Ok(x) => x,
        Err(err) => {
            return Err(err);
        },
    };
    let nin = match src.read_varint(e) {
        Ok(x) => x,
        Err(err) => {
            return Err(err);
        },
    };
    let ghost a = parse_varint(e, s0.skip(4))->Some_0.1;
    proof {
        lemma_parse_varint_bounds(e, s0.skip(4));
        lemma_skip_skip(s0, 4, a);
    }
    let inputs = match decode_inputs(src, e, nin) {
        Ok(x) => x,
        Err(err) => {
            return Err(err);
        },
    };
    let ghost b = parse_inputs(e, s0.skip(4 + a), nin as nat)->Some_0.1;
    proof {
        lemma_parse_inputs_bounds(e, s0.skip(4 + a), nin as nat);
        lemma_skip_skip(s0, 4 + a, b);
    }
    let nout = match src.read_varint(e) {
        Ok(x) => x,
        Err(err) => {
            return Err(err);
        },
    };
    let ghost c = parse_varint(e, s0.skip(4 + a + b))->Some_0.1;
    proof {
        lemma_parse_varint_bounds(e, s0.skip(4 + a + b));
        lemma_skip_skip(s0, 4 + a + b, c);
    }
    let outputs = match decode_outputs(src, e, nout) {
        Ok(x) => x,
        Err(err) => {
            return Err(err);
        },
    };
    let ghost d = parse_outputs(e, s0.skip(4 + a + b + c), nout as nat)->Some_0.1;
    proof {
        lemma_parse_outputs_bounds(e, s0.skip(4 + a + b + c), nout as nat);
        lemma_skip_skip(s0, 4 + a + b + c, d);
    }
    let lock_time = match src.read_u32(e) {
        Ok(x) => x,
        Err(err) => {
            return Err(err);
        },
    };
    proof {
        let off = 4 + a + b + c + d;
        lemma_skip_subrange(s0, off, 0, 4);
        lemma_skip_skip(s0, off, 4);
    }
    Ok(Transaction { version, inputs, outputs, lock_time })
}

/// Decodes `n` consecutive transactions.
#[verifier::rlimit(100)]
pub fn decode_txs(src: &mut ByteSource, e: Endianness, n: u64) -> (r: Result<
    Vec<Transaction>,
    DecodeError,
>)
    ensures
        final(src).stream() == old(src).stream(),
        match r {
            Ok(v) => match parse_txs(e, old(src)@, n as nat) {
                Some(p) => v@.map_values(|x: Transaction| x@) == p.0 && final(src)@ == old(
                    src,
                )@.skip(p.1),
                None => false,
            },
            Err(err) => parse_txs(e, old(src)@, n as nat) is None && err
                == DecodeError::TruncatedInput && final(src)@.len() <= old(src)@.len(),
        },
{
    let ghost s0 = src@;
    let mut acc: Vec<Transaction> = Vec::new();
    let mut i: u64 = 0;
    let ghost mut consumed: int = 0;
    proof {
        assert(s0.skip(0) =~= s0);
        assert(acc@.map_values(|x: Transaction| x@) =~= Seq::<TxModel>::empty());
        match parse_txs(e, s0, n as nat) {
            Some(q) => {
                assert(acc@.map_values(|x: Transaction| x@) + q.0 =~= q.0);
            },
            None => {
            },
        }
    }
    while i < n
        invariant
            s0 == old(src)@,
            src.stream() == old(src).stream(),
            i <= n,
            0 <= consumed <= s0.len(),
            src@ == s0.skip(consumed),
            parse_txs(e, s0, n as nat) == extend_parse(
                acc@.map_values(|x: Transaction| x@),
                consumed,
                parse_txs(e, src@, (n - i) as nat),
            ),
        decreases n - i,
    {
        let ghost sb = src@;
        let ghost pre = acc@.map_values(|x: Transaction| x@);
        let tx = match decode_tx(src, e) {
            Ok(x) => x,
            Err(err) => {
                proof {
                    assert(parse_txs(e, sb, (n - i) as nat) is None);
                    assert(parse_txs(e, s0, n as nat) == extend_parse(
                        pre,
                        consumed,
                        parse_txs(e, sb, (n - i) as nat),
                    ));
                    assert(parse_txs(e, s0, n as nat) is None);
                    assert(sb.len() <= s0.len());
                }
                return Err(err);
            },
        };
        acc.push(tx);
        proof {
            let p = parse_tx(e, sb)->Some_0;
            lemma_parse_tx_bounds(e, sb);
            lemma_skip_skip(s0, consumed, p.1);
            assert(acc@.map_values(|x: Transaction| x@) =~= pre.push(p.0));
            assert(parse_txs(e, sb, (n - i) as nat) == extend_parse(
                seq![p.0],
                p.1,
                parse_txs(e, sb.skip(p.1), (n - i - 1) as nat),
            ));
            match parse_txs(e, src@, (n - i - 1) as nat) {
                Some(q) => {
                    assert(pre + (seq![p.0] + q.0) =~= pre.push(p.0) + q.0);
                },
                None => {
                },
            }
            consumed = consumed + p.1;
        }
        i = i + 1;
    }
    proof {
        match parse_txs(e, s0, n as nat) {
            Some(q) => {
                assert(acc@.map_values(|x: Transaction| x@) + Seq::<TxModel>::empty()
                    =~= acc@.map_values(|x: Transaction| x@));
            },
            None => {
            },
        }
    }
    Ok(acc)
}

/// Decodes one block from the front of the stream: the header, then every
/// transaction. On `BadMagic` the sentinel bytes have been consumed and the
/// rest of the file is not to be decoded; on `TruncatedInput` the stream
/// ended mid-field.
pub fn decode_block(src: &mut ByteSource, e: Endianness) -> (r: Result<Block, DecodeError>)
    ensures
        final(src).stream() == old(src).stream(),
        match r {
            Ok(b) => match parse_block(e, old(src)@) {
                BlockParse::Done(bm, k) => b@ == bm && final(src)@ == old(src)@.skip(k),
                BlockParse::BadMagic => false,
                BlockParse::Truncated => false,
            },
            Err(err) => match parse_block(e, old(src)@) {
                BlockParse::Done(bm, k) => false,
                BlockParse::BadMagic => err == DecodeError::BadMagic && final(src)@ == old(
                    src,
                )@.skip(4),
                BlockParse::Truncated => err == DecodeError::TruncatedInput && final(src)@.len()
                    <= old(src)@.len(),
            },
        },
{
    proof {
        reveal(parse_block);
    }
    let ghost s0 = src@;
    let magic = match src.read_u32(e) {
        Ok(x) => x,
        Err(err) => {
            return Err(err);
        },
    };
    if magic != MAGIC {
        return Err(DecodeError::BadMagic);
    }
    let size = match src.read_u32(e) {
        Ok(x) => x,
        Err(err) => {
            return Err(err);
        },
    };
    proof {
        lemma_skip_subrange(s0, 4, 0, 4);
        lemma_skip_skip(s0, 4, 4);
    }
    let version = match src.read_u32(e) {
        Ok(x) => x,
        Err(err) => {
            return Err(err);
        },
    };
    proof {
        lemma_skip_subrange(s0, 8, 0, 4);
        lemma_skip_skip(s0, 8, 4);
    }
    let hash_wire = match src.read_exact(32) {
        Ok(x) => x,
        Err(err) => {
            return Err(err);
        },
    };
    let prev_hash = reversed(&hash_wire);
    proof {
        lemma_skip_subrange(s0, 12, 0, 32);
        lemma_skip_skip(s0, 12, 32);
    }
    let merkle_wire = match src.read_exact(32) {
        Ok(x) => x,
        Err(err) => {
            return Err(err);
        },
    };
    let merkle_root = reversed(&merkle_wire);
    proof {
        lemma_skip_subrange(s0, 44, 0, 32);
        lemma_skip_skip(s0, 44, 32);
    }
    let timestamp = match src.read_u32(e) {
        Ok(x) => x,
        Err(err) => {
            return Err(err);
        },
    };
    proof {
        lemma_skip_subrange(s0, 76, 0, 4);
        lemma_skip_skip(s0, 76, 4);
    }
    let bits = match src.read_u32(e) {
        Ok(x) => x,
        Err(err) => {
            return Err(err);
        },
    };
    proof {
        lemma_skip_subrange(s0, 80, 0, 4);
        lemma_skip_skip(s0, 80, 4);
    }
    let nonce = match src.read_u32(e) {
        Ok(x) => x,
        Err(err) => {
            return Err(err);
        },
    };
    proof {
        lemma_skip_subrange(s0, 84, 0, 4);
        lemma_skip_skip(s0, 84, 4);
    }
    let txn = match src.read_varint(e) {
        Ok(x) => x,
        Err(err) => {
            return Err(err);
        },
    };
    let ghost a = parse_varint(e, s0.skip(88))->Some_0.1;
    proof {
        lemma_parse_varint_bounds(e, s0.skip(88));
        lemma_skip_skip(s0, 88, a);
    }
    let transactions = match decode_txs(src, e, txn) {
        Ok(x) => x,
        Err(err) => {
            return Err(err);
        },
    };
    proof {
        let b = parse_txs(e, s0.skip(88 + a), txn as nat)->Some_0.1;
        lemma_parse_txs_bounds(e, s0.skip(88 + a), txn as nat);
        lemma_skip_skip(s0, 88 + a, b);
    }
    Ok(
        Block {
            header: BlockHeader {
                magic,
                size,
                version,
                prev_hash,
                merkle_root,
                timestamp,
                bits,
                nonce,
            },
            transactions,
        },
    )
}

/// Law: header field boundary. For any stream with at least four bytes at a
/// presumed block boundary, the block is rejected with a bad magic exactly
/// when those four bytes are not the sentinel; the sentinel itself is never
/// rejected that way.
pub proof fn lemma_magic_gate(e: Endianness, s: Seq<u8>)
    requires
        s.len() >= 4,
    ensures
        (parse_block(e, s) is BadMagic) <==> word32(e, s.subrange(0, 4)) != MAGIC,
{
    reveal(parse_block);
}

/// Law: empty transaction list. A block whose transaction-count varint is
/// zero decodes to its header with no transactions, and its field walk
/// consumes exactly the header and that varint.
pub proof fn lemma_empty_tx_list(e: Endianness, s: Seq<u8>)
    requires
        s.len() >= 88,
        word32(e, s.subrange(0, 4)) == MAGIC,
        parse_varint(e, s.skip(88)) matches Some(p) && p.0 == 0,
    ensures
        parse_block(e, s) matches BlockParse::Done(bm, k) && bm.transactions =~= Seq::<
            TxModel,
        >::empty() && k == 88 + parse_varint(e, s.skip(88))->Some_0.1,
{
    reveal(parse_block);
}

} // verus!
