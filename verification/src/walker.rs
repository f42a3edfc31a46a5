//! The file walker: decodes one block after another until a file's counted
//! bytes run out, and runs files in the order given.
use vstd::prelude::*;

use crate::DecodeError;
use crate::Endianness;
use crate::block::decode_block;
use crate::block::parse_block;
use crate::block::BlockParse;
use crate::records::Block;
use crate::records::BlockModel;
use crate::source::ByteSource;

verus! {

/// Model of the outcome of walking one file: the blocks decoded, in stream
/// order, and the error that stopped the walk, if one did.
pub struct FileModel {
    pub blocks: Seq<BlockModel>,
    pub error: Option<DecodeError>,
}

/// What walking the stream `s` yields when `remaining` counted bytes are
/// left. Each decoded block advances both the counter and the cursor by its
/// declared size plus eight (the magic and size prefix): the next block is
/// looked for at that offset from the block's start, wherever the field
/// walk ended — the declared size is trusted, not cross-checked, as the
/// format asks. A declared advance past the counted end stops the walk with
/// [`DecodeError::TruncatedBlock`]; a wrong sentinel or a short field stops
/// it with the matching error; a counter that reaches exactly zero ends the
/// walk cleanly.
pub open spec fn walk_blocks(e: Endianness, s: Seq<u8>, remaining: nat) -> FileModel
    decreases remaining,
{
    if remaining == 0 {
        FileModel { blocks: Seq::empty(), error: None }
    } else {
        match parse_block(e, s) {
            BlockParse::Truncated => FileModel {
                blocks: Seq::empty(),
                error: Some(DecodeError::TruncatedInput),
            },
            BlockParse::BadMagic => FileModel {
                blocks: Seq::empty(),
                error: Some(DecodeError::BadMagic),
            },
            BlockParse::Done(bm, _) => {
                let advance = bm.header.size + 8;
                if advance > remaining {
                    FileModel { blocks: seq![bm], error: Some(DecodeError::TruncatedBlock) }
                } else {
                    let rest = walk_blocks(e, s.skip(advance), (remaining - advance) as nat);
                    FileModel { blocks: seq![bm] + rest.blocks, error: rest.error }
                }
            },
        }
    }
}

/// The outcome of decoding one file: every block decoded before the stream
/// ended or failed, and the error that stopped the walk, if one did. The
/// blocks already decoded are valid whatever ended the walk.
#[derive(Debug, Clone, PartialEq, Eq)]
pub struct FileDecode {
    pub blocks: Vec<Block>,
    pub error: Option<DecodeError>,
}

impl View for FileDecode {
    type V = FileModel;

    open spec fn view(&self) -> FileModel {
        FileModel { blocks: self.blocks@.map_values(|b: Block| b@), error: self.error }
    }
}

/// Decodes every block of one file's contents. The remaining-bytes counter
/// is seeded with the file's length; each block takes its declared size
/// plus eight off it, and the cursor moves to that offset from the block's
/// start to look for the next block, however many bytes the field walk
/// consumed. The walk stops when the counter reaches zero, or at the first
/// error, leaving the blocks decoded so far in the result.
#[verifier::rlimit(100)]
pub fn decode_file(e: Endianness, data: Vec<u8>) -> (r: FileDecode)
    ensures
        r@ == walk_blocks(e, data@, data@.len() as nat),
{
    let ghost d0 = data@;
    let total = data.len();
    let mut src = ByteSource::new(data);
    let mut remaining: usize = total;
    let mut blocks: Vec<Block> = Vec::new();
    proof {
        assert(d0.skip(0) =~= d0);
        match walk_blocks(e, src@, remaining as nat) {
            FileModel { blocks: tb, error: te } => {
                assert(blocks@.map_values(|b: Block| b@) + tb =~= tb);
            },
        }
    }
    while remaining != 0
        invariant
            d0 == data@,
            total == d0.len(),
            remaining <= total,
            src.stream() == d0,
            src@ == d0.skip(total as int - remaining as int),
            walk_blocks(e, d0, total as nat) == (FileModel {
                blocks: blocks@.map_values(|b: Block| b@) + walk_blocks(
                    e,
                    src@,
                    remaining as nat,
                ).blocks,
                error: walk_blocks(e, src@, remaining as nat).error,
            }),
        decreases remaining,
    {
        let ghost sb = src@;
        let ghost pre = blocks@.map_values(|b: Block| b@);
        let block = match decode_block(&mut src, e) {
            Ok(b) => b,
            Err(err) => {
                proof {
                    assert(pre + Seq::<BlockModel>::empty() =~= pre);
                }
                return FileDecode { blocks, error: Some(err) };
            },
        };
        let advance: u64 = block.header.size as u64 + 8;
        if advance > remaining as u64 {
            blocks.push(block);
            proof {
                let bm = block@;
                assert(blocks@.map_values(|b: Block| b@) =~= pre.push(bm));
                assert(pre + seq![bm] =~= pre.push(bm));
            }
            return FileDecode { blocks, error: Some(DecodeError::TruncatedBlock) };
        }
        blocks.push(block);
        remaining = remaining - advance as usize;
        src.seek_to(total - remaining);
        proof {
            let bm = block@;
            assert(sb.skip(bm.header.size + 8) =~= d0.skip(total as int - remaining as int));
            let rest = walk_blocks(e, src@, remaining as nat);
            assert(blocks@.map_values(|b: Block| b@) =~= pre.push(bm));
            assert(pre + (seq![bm] + rest.blocks) =~= pre.push(bm) + rest.blocks);
        }
    }
    proof {
        assert(blocks@.map_values(|b: Block| b@) + Seq::<BlockModel>::empty() =~= blocks@.map_values(
            |b: Block| b@,
        ));
    }
    FileDecode { blocks, error: None }
}

/// Decodes many files' contents, one file after another, in the order
/// given. Each file is walked independently: the result for the file at an
/// index is exactly the walk of that file, so an error in one file does not
/// disturb any other, and the outputs stand in the same order as the inputs.
pub fn decode_files(e: Endianness, files: &Vec<Vec<u8>>) -> (r: Vec<FileDecode>)
    ensures
        r@.len() == files@.len(),
        forall|i: int|
            0 <= i < files@.len() ==> #[trigger] r@[i]@ == walk_blocks(
                e,
                files@[i]@,
                files@[i]@.len() as nat,
            ),
{
    let mut out: Vec<FileDecode> = Vec::new();
    let mut idx: usize = 0;
    while idx < files.len()
        invariant
            idx <= files@.len(),
            out@.len() == idx,
            forall|i: int|
                0 <= i < idx ==> #[trigger] out@[i]@ == walk_blocks(
                    e,
                    files@[i]@,
                    files@[i]@.len() as nat,
                ),
        decreases files@.len() - idx,
    {
        let contents = files[idx].clone();
        proof {
            assert(contents@ =~= files@[idx as int]@);
        }
        let decoded = decode_file(e, contents);
        out.push(decoded);
        idx = idx + 1;
    }
    out
}

/// Law: block advance. Whenever a block decodes at the front of the stream
/// with declared size `size`, and the remaining-bytes counter holds at least
/// `size + 8`, the walk takes exactly `size + 8` off the counter and looks
/// for the next block exactly `size + 8` bytes past the block's start —
/// however many transactions, inputs and outputs the block held, and
/// however many bytes the field walk consumed.
pub proof fn lemma_block_advance(e: Endianness, s: Seq<u8>, remaining: nat)
    requires
        remaining > 0,
        parse_block(e, s) matches BlockParse::Done(bm, _k) && bm.header.size + 8 <= remaining,
    ensures
        parse_block(e, s) matches BlockParse::Done(bm, _k) && walk_blocks(e, s, remaining)
            == (FileModel {
            blocks: seq![bm] + walk_blocks(
                e,
                s.skip(bm.header.size + 8),
                (remaining - (bm.header.size + 8)) as nat,
            ).blocks,
            error: walk_blocks(
                e,
                s.skip(bm.header.size + 8),
                (remaining - (bm.header.size + 8)) as nat,
            ).error,
        }),
{
}

} // verus!
