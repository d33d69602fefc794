use cargo_cryptile::codec::{append_blocks, block_at, decode, encode, push_block, to_blocks};
use cargo_cryptile::CryptileError;

#[test]
fn encode_empty_is_one_full_padding_block() {
    let blocks = encode(&[]);
    let mut expected = [0u8; 16];
    expected[15] = 16;
    assert_eq!(blocks, vec![expected]);
}

#[test]
fn encode_five_bytes() {
    let blocks = encode(b"hello");
    let mut expected = [0u8; 16];
    expected[..5].copy_from_slice(b"hello");
    expected[15] = 11;
    assert_eq!(blocks, vec![expected]);
}

#[test]
fn encode_fifteen_bytes_pads_with_one() {
    let data: Vec<u8> = (1..=15).collect();
    let blocks = encode(&data);
    assert_eq!(blocks.len(), 1);
    assert_eq!(&blocks[0][..15], &data[..]);
    assert_eq!(blocks[0][15], 1);
}

#[test]
fn encode_sixteen_bytes_adds_a_padding_block() {
    let data: Vec<u8> = (1..=16).collect();
    let blocks = encode(&data);
    assert_eq!(blocks.len(), 2);
    assert_eq!(&blocks[0][..], &data[..]);
    let mut padding = [0u8; 16];
    padding[15] = 16;
    assert_eq!(blocks[1], padding);
}

#[test]
fn encode_seventeen_bytes() {
    let data: Vec<u8> = (1..=17).collect();
    let blocks = encode(&data);
    assert_eq!(blocks.len(), 2);
    assert_eq!(&blocks[0][..], &data[..16]);
    assert_eq!(blocks[1][0], 17);
    assert_eq!(&blocks[1][1..15], &[0u8; 14][..]);
    assert_eq!(blocks[1][15], 15);
}

#[test]
fn decode_inverts_encode_for_boundary_lengths() {
    for len in [0usize, 1, 15, 16, 17, 31, 32, 33, 100] {
        let data: Vec<u8> = (0..len).map(|i| (i * 7 + 3) as u8).collect();
        assert_eq!(decode(&encode(&data)), Ok(data));
    }
}

#[test]
fn decode_of_no_blocks_is_end_of_stream() {
    assert_eq!(decode(&Vec::new()), Err(CryptileError::UnexpectedEndOfStream));
}

#[test]
fn decode_refuses_padding_over_sixteen() {
    let mut block = [0u8; 16];
    block[15] = 17;
    assert_eq!(decode(&vec![block]), Err(CryptileError::InvalidPadding));
}

#[test]
fn decode_keeps_all_but_last_block_whole() {
    let first = [9u8; 16];
    let mut last = [5u8; 16];
    last[15] = 14;
    assert_eq!(decode(&vec![first, last]), Ok([vec![9u8; 16], vec![5u8; 2]].concat()));
}

#[test]
fn decode_full_padding_block_gives_nothing_of_it() {
    let mut last = [0u8; 16];
    last[15] = 16;
    assert_eq!(decode(&vec![[1u8; 16], last]), Ok(vec![1u8; 16]));
}

#[test]
fn blocks_round_trip_through_bytes() {
    let data: Vec<u8> = (0..48u8).collect();
    let blocks = to_blocks(&data, 0);
    assert_eq!(blocks.len(), 3);
    assert_eq!(blocks[2], block_at(&data, 32));
    let mut out = vec![0xaa];
    append_blocks(&mut out, &blocks);
    assert_eq!(out[0], 0xaa);
    assert_eq!(&out[1..], &data[..]);
}

#[test]
fn to_blocks_skips_leading_bytes() {
    let data: Vec<u8> = (0..40u8).collect();
    let blocks = to_blocks(&data, 8);
    assert_eq!(blocks.len(), 2);
    assert_eq!(blocks[0][0], 8);
    assert_eq!(blocks[1][15], 39);
}

#[test]
fn push_block_appends_sixteen_bytes() {
    let mut out = vec![1u8, 2];
    push_block(&mut out, &[3u8; 16]);
    assert_eq!(out.len(), 18);
    assert_eq!(&out[2..], &[3u8; 16][..]);
}
