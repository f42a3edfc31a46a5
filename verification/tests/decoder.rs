use blockwalk::block::decode_block;
use blockwalk::records::Block;
use blockwalk::source::ByteSource;
use blockwalk::varint::encode_varint;
use blockwalk::walker::decode_file;
use blockwalk::walker::decode_files;
use blockwalk::DecodeError;
use blockwalk::Endianness;
use blockwalk::MAGIC;

fn push_u32_le(out: &mut Vec<u8>, x: u32) {
    out.extend_from_slice(&x.to_le_bytes());
}

fn push_u64_le(out: &mut Vec<u8>, x: u64) {
    out.extend_from_slice(&x.to_le_bytes());
}

/// A header with the given magic and declared size; the other fields get
/// fixed recognizable values. The two hash fields are wire-order bytes.
fn header_bytes(magic: u32, size: u32, prev_wire: [u8; 32], merkle_wire: [u8; 32]) -> Vec<u8> {
    let mut out: Vec<u8> = Vec::new();
    push_u32_le(&mut out, magic);
    push_u32_le(&mut out, size);
    push_u32_le(&mut out, 2); // version
    out.extend_from_slice(&prev_wire);
    out.extend_from_slice(&merkle_wire);
    push_u32_le(&mut out, 1_700_000_000); // timestamp
    push_u32_le(&mut out, 0x1d00ffff); // bits
    push_u32_le(&mut out, 0xcafe_f00d); // nonce
    out
}

fn ascending_hash() -> [u8; 32] {
    let mut h = [0u8; 32];
    let mut i = 0usize;
    while i < 32 {
        h[i] = (i as u8) + 1;
        i += 1;
    }
    h
}

/// A block with no transactions whose declared size covers exactly its own
/// bytes past the 8-byte prefix, so the walker lands on the next block.
fn empty_block_bytes() -> Vec<u8> {
    // 88 header bytes + 1 varint byte = 89 on-disk; declared size excludes
    // the 8-byte magic+size prefix: 89 - 8 = 81.
    let mut out = header_bytes(MAGIC, 81, [0u8; 32], [0u8; 32]);
    out.push(0); // transaction count
    out
}

fn read_source(bytes: Vec<u8>) -> ByteSource {
    ByteSource::new(bytes)
}

#[test]
fn u16_field_both_orders() {
    let mut s = read_source(vec![0x01, 0x02]);
    assert_eq!(s.read_u16(Endianness::Little), Ok(0x0201));
    let mut s = read_source(vec![0x01, 0x02]);
    assert_eq!(s.read_u16(Endianness::Big), Ok(0x0102));
}

#[test]
fn u32_field_both_orders() {
    let mut s = read_source(vec![0x01, 0x02, 0x03, 0x04]);
    assert_eq!(s.read_u32(Endianness::Little), Ok(0x0403_0201));
    let mut s = read_source(vec![0x01, 0x02, 0x03, 0x04]);
    assert_eq!(s.read_u32(Endianness::Big), Ok(0x0102_0304));
}

#[test]
fn u64_field_both_orders() {
    let bytes = vec![0x01, 0x02, 0x03, 0x04, 0x05, 0x06, 0x07, 0x08];
    let mut s = read_source(bytes.clone());
    assert_eq!(s.read_u64(Endianness::Little), Ok(0x0807_0605_0403_0201));
    let mut s = read_source(bytes);
    assert_eq!(s.read_u64(Endianness::Big), Ok(0x0102_0304_0506_0708));
}

#[test]
fn reads_consume_and_track_remaining() {
    let mut s = read_source(vec![0xAA, 0xBB, 0xCC]);
    assert_eq!(s.bytes_remaining(), 3);
    assert_eq!(s.read_u8(), Ok(0xAA));
    assert_eq!(s.bytes_remaining(), 2);
    assert_eq!(s.read_u16(Endianness::Little), Ok(0xCCBB));
    assert_eq!(s.bytes_remaining(), 0);
    assert_eq!(s.read_u8(), Err(DecodeError::TruncatedInput));
}

#[test]
fn read_exact_takes_the_exact_run() {
    let mut s = read_source(vec![1, 2, 3, 4, 5]);
    assert_eq!(s.read_exact(3), Ok(vec![1, 2, 3]));
    assert_eq!(s.read_exact(3), Err(DecodeError::TruncatedInput));
    assert_eq!(s.read_exact(2), Ok(vec![4, 5]));
}

#[test]
fn varint_round_trip_all_ranges() {
    let values: [u64; 12] = [
        0,
        1,
        0xFC,
        0xFD,
        0x1234,
        0xFFFF,
        0x1_0000,
        0xDEAD_BEEF,
        0xFFFF_FFFF,
        0x1_0000_0000,
        0x0123_4567_89AB_CDEF,
        u64::MAX,
    ];
    for &v in values.iter() {
        for e in [Endianness::Little, Endianness::Big] {
            let enc = encode_varint(e, v);
            let mut s = read_source(enc);
            assert_eq!(s.read_varint(e), Ok(v));
            assert_eq!(s.bytes_remaining(), 0);
        }
    }
}

#[test]
fn varint_encoding_widths() {
    assert_eq!(encode_varint(Endianness::Little, 0xFC), vec![0xFC]);
    assert_eq!(encode_varint(Endianness::Little, 0xFD), vec![0xFD, 0xFD, 0x00]);
    assert_eq!(encode_varint(Endianness::Big, 0xFD), vec![0xFD, 0x00, 0xFD]);
    assert_eq!(encode_varint(Endianness::Little, 0x1_0000), vec![0xFE, 0x00, 0x00, 0x01, 0x00]);
    assert_eq!(
        encode_varint(Endianness::Little, 0x1_0000_0000),
        vec![0xFF, 0, 0, 0, 0, 1, 0, 0, 0]
    );
}

#[test]
fn varint_wide_encoding_accepted() {
    // The value 5 encoded needlessly wide with the 0xFD marker decodes as-is.
    let mut s = read_source(vec![0xFD, 0x05, 0x00]);
    assert_eq!(s.read_varint(Endianness::Little), Ok(5));
}

#[test]
fn varint_truncated_payload() {
    let mut s = read_source(vec![0xFD, 0x05]);
    assert_eq!(s.read_varint(Endianness::Little), Err(DecodeError::TruncatedInput));
    let mut s = read_source(vec![0xFF, 1, 2, 3]);
    assert_eq!(s.read_varint(Endianness::Little), Err(DecodeError::TruncatedInput));
}

#[test]
fn magic_sentinel_accepted() {
    let bytes = empty_block_bytes();
    // The sentinel is the little-endian bytes F9 BE B4 D9.
    assert_eq!(&bytes[0..4], &[0xF9, 0xBE, 0xB4, 0xD9]);
    let mut s = read_source(bytes);
    let block = decode_block(&mut s, Endianness::Little).expect("sentinel must be accepted");
    assert_eq!(block.header.magic, MAGIC);
    assert_eq!(block.header.size, 81);
    assert_eq!(block.header.version, 2);
    assert_eq!(block.header.timestamp, 1_700_000_000);
    assert_eq!(block.header.bits, 0x1d00ffff);
    assert_eq!(block.header.nonce, 0xcafe_f00d);
    assert_eq!(block.transactions.len(), 0);
}

#[test]
fn magic_mismatch_rejected() {
    let mut bytes = empty_block_bytes();
    bytes[0] = 0xFA;
    let mut s = read_source(bytes);
    assert_eq!(decode_block(&mut s, Endianness::Little), Err(DecodeError::BadMagic));
}

#[test]
fn hash_fields_are_byte_reversed() {
    let mut bytes = header_bytes(MAGIC, 81, ascending_hash(), ascending_hash());
    bytes.push(0);
    let mut s = read_source(bytes);
    let block = decode_block(&mut s, Endianness::Little).expect("block must decode");
    let mut expected: Vec<u8> = Vec::new();
    let mut b = 32u8;
    while b >= 1 {
        expected.push(b);
        b -= 1;
    }
    assert_eq!(block.header.prev_hash, expected);
    assert_eq!(block.header.merkle_root, expected);
}

#[test]
fn block_with_one_transaction() {
    let prev_tx = ascending_hash();
    let mut body: Vec<u8> = Vec::new();
    push_u32_le(&mut body, 2); // tx version
    body.push(1); // input count
    body.extend_from_slice(&prev_tx);
    push_u32_le(&mut body, 7); // out index
    body.push(2); // input script length
    body.extend_from_slice(&[0xAB, 0xCD]);
    push_u32_le(&mut body, 0xFFFF_FFFF); // sequence
    body.push(2); // output count
    push_u64_le(&mut body, 5_000_000_000); // value
    body.push(1); // output script length
    body.push(0x51);
    push_u64_le(&mut body, 42); // second value
    body.push(0); // empty output script
    push_u32_le(&mut body, 500_000); // lock time
    let disk_len = 88 + 1 + body.len();
    let mut bytes = header_bytes(MAGIC, (disk_len - 8) as u32, [0u8; 32], [0u8; 32]);
    bytes.push(1); // tx count
    bytes.extend_from_slice(&body);

    let outcome = decode_file(Endianness::Little, bytes);
    assert_eq!(outcome.error, None);
    assert_eq!(outcome.blocks.len(), 1);
    let tx = &outcome.blocks[0].transactions[0];
    assert_eq!(tx.version, 2);
    assert_eq!(tx.lock_time, 500_000);
    assert_eq!(tx.inputs.len(), 1);
    let mut expected_hash: Vec<u8> = prev_tx.to_vec();
    expected_hash.reverse();
    assert_eq!(tx.inputs[0].prev_tx_hash, expected_hash);
    assert_eq!(tx.inputs[0].out_index, 7);
    assert_eq!(tx.inputs[0].script, vec![0xAB, 0xCD]);
    assert_eq!(tx.inputs[0].sequence, 0xFFFF_FFFF);
    assert_eq!(tx.outputs.len(), 2);
    assert_eq!(tx.outputs[0].value, 5_000_000_000);
    assert_eq!(tx.outputs[0].script, vec![0x51]);
    assert_eq!(tx.outputs[1].value, 42);
    assert_eq!(tx.outputs[1].script, Vec::<u8>::new());
}

#[test]
fn walker_advances_by_declared_size_plus_eight() {
    // The first block declares more than its field walk spans: 4 bytes of
    // padding follow its transaction count, and the declared size counts
    // them. The walker must step over the padding to the second block.
    let mut first = header_bytes(MAGIC, 85, [1u8; 32], [1u8; 32]);
    first.push(0);
    first.extend_from_slice(&[0xEE; 4]); // padding the declared size covers
    assert_eq!(first.len(), 85 + 8);
    let second = empty_block_bytes();
    let mut file = first;
    file.extend_from_slice(&second);

    let outcome = decode_file(Endianness::Little, file);
    // The counter drops by exactly 85 + 8 and the second block is sought
    // exactly there, past the padding the field walk never touched.
    assert_eq!(outcome.error, None);
    assert_eq!(outcome.blocks.len(), 2);
    assert_eq!(outcome.blocks[0].header.size, 85);
    assert_eq!(outcome.blocks[1].header.size, 81);
}

#[test]
fn walker_steps_back_when_declared_size_is_short() {
    // The block's field walk spans 89 bytes on disk but it declares only
    // 78: the next block is sought at 78 + 8 = 86, inside the bytes the
    // field walk already consumed, where no sentinel stands.
    let mut file = header_bytes(MAGIC, 78, [0u8; 32], [0u8; 32]);
    file.push(0);
    assert_eq!(file.len(), 89);
    let outcome = decode_file(Endianness::Little, file);
    assert_eq!(outcome.blocks.len(), 1);
    assert_eq!(outcome.error, Some(DecodeError::TruncatedInput));
}

#[test]
fn declared_size_counts_trailing_padding() {
    // One block whose declared size covers 4 bytes the field walk never
    // touches: the counter drops by exactly declared size + 8 and reaches
    // zero, so the walk ends cleanly whatever the walk itself consumed.
    let mut file = header_bytes(MAGIC, 85, [0u8; 32], [0u8; 32]);
    file.push(0);
    file.extend_from_slice(&[0xEE; 4]);
    let outcome = decode_file(Endianness::Little, file);
    assert_eq!(outcome.error, None);
    assert_eq!(outcome.blocks.len(), 1);
}

#[test]
fn two_empty_blocks_decode_cleanly() {
    let mut file = empty_block_bytes();
    file.extend_from_slice(&empty_block_bytes());
    let outcome = decode_file(Endianness::Little, file);
    assert_eq!(outcome.error, None);
    assert_eq!(outcome.blocks.len(), 2);
    assert_eq!(outcome.blocks[0].transactions.len(), 0);
    assert_eq!(outcome.blocks[1].transactions.len(), 0);
}

#[test]
fn file_ending_mid_size_field() {
    // The sentinel, then only 2 of the 4 declared-size bytes.
    let file = vec![0xF9, 0xBE, 0xB4, 0xD9, 0x51, 0x00];
    let outcome = decode_file(Endianness::Little, file);
    assert_eq!(outcome.blocks.len(), 0);
    assert_eq!(outcome.error, Some(DecodeError::TruncatedInput));
}

#[test]
fn file_ending_mid_script() {
    let mut body: Vec<u8> = Vec::new();
    push_u32_le(&mut body, 1); // tx version
    body.push(1); // input count
    body.extend_from_slice(&[0u8; 32]);
    push_u32_le(&mut body, 0);
    body.push(200); // script claims 200 bytes; far fewer follow
    body.extend_from_slice(&[0x00; 10]);
    let mut file = header_bytes(MAGIC, 300, [0u8; 32], [0u8; 32]);
    file.push(1);
    file.extend_from_slice(&body);
    let outcome = decode_file(Endianness::Little, file);
    assert_eq!(outcome.blocks.len(), 0);
    assert_eq!(outcome.error, Some(DecodeError::TruncatedInput));
}

#[test]
fn declared_size_past_end_of_file() {
    // The block's fields all decode, but its declared size reaches past the
    // file's end: the walker reports it rather than underflow its counter.
    let mut file = header_bytes(MAGIC, 200, [0u8; 32], [0u8; 32]);
    file.push(0);
    let outcome = decode_file(Endianness::Little, file);
    assert_eq!(outcome.blocks.len(), 1);
    assert_eq!(outcome.error, Some(DecodeError::TruncatedBlock));
}

#[test]
fn error_stops_one_file_only() {
    let good = empty_block_bytes();
    let mut bad = empty_block_bytes();
    bad[0] = 0x00;
    let files = vec![bad, good.clone(), good];
    let outcomes = decode_files(Endianness::Little, &files);
    assert_eq!(outcomes.len(), 3);
    assert_eq!(outcomes[0].error, Some(DecodeError::BadMagic));
    assert_eq!(outcomes[0].blocks.len(), 0);
    assert_eq!(outcomes[1].error, None);
    assert_eq!(outcomes[1].blocks.len(), 1);
    assert_eq!(outcomes[2].error, None);
    assert_eq!(outcomes[2].blocks.len(), 1);
}

#[test]
fn files_keep_their_order() {
    // Three distinguishable files: nonce of each block tells them apart.
    let mut a = empty_block_bytes();
    let mut b = empty_block_bytes();
    a[84] = 0x11; // nonce low byte
    b[84] = 0x22;
    let files = vec![a, b];
    let outcomes = decode_files(Endianness::Little, &files);
    assert_eq!(outcomes.len(), 2);
    assert_eq!(outcomes[0].blocks[0].header.nonce & 0xFF, 0x11);
    assert_eq!(outcomes[1].blocks[0].header.nonce & 0xFF, 0x22);
}

#[test]
fn empty_file_decodes_to_nothing() {
    let outcome = decode_file(Endianness::Little, Vec::new());
    assert_eq!(outcome.blocks.len(), 0);
    assert_eq!(outcome.error, None);
}

#[test]
fn block_clone_and_equality() {
    let mut s = read_source(empty_block_bytes());
    let block: Block = decode_block(&mut s, Endianness::Little).expect("block must decode");
    let copy = block.clone();
    assert_eq!(block, copy);
}
