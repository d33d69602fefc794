use cargo_cryptile::cipher::{sha256, BlockCipher};
use cargo_cryptile::container::{
    open_body, read_header, seal, strategy_for, verify_key, write_header, Strategy, HEADER_LEN,
    SMALL_FILE_SIZE_LIMIT,
};
use cargo_cryptile::{decrypt, encrypt, is_correct_key, CryptileError};

fn key_of(password: &str) -> [u8; 32] {
    sha256(password.as_bytes())
}

#[test]
fn encrypt_file() {
    let key = key_of("0123456789ABCDEF");
    let plain: Vec<u8> = (0..1000u32).map(|i| (i % 251) as u8).collect();
    let container = encrypt(&plain, &key);
    assert_eq!(container.len(), 32 + 1008);
}

#[test]
fn decrypt_file() {
    let key = key_of("0123456789ABCDEF");
    let plain: Vec<u8> = (0..1000u32).map(|i| (i % 251) as u8).collect();
    let container = encrypt(&plain, &key);
    assert_eq!(decrypt(&container, &key).expect("Error in Decrypting"), plain);
}

#[test]
fn hello_scenario() {
    let key = key_of("K");
    let container = encrypt(b"hello", &key);
    assert_eq!(container.len(), 48);
    assert_eq!(decrypt(&container, &key), Ok(b"hello".to_vec()));
    let other = key_of("not K");
    assert_eq!(decrypt(&container, &other), Err(CryptileError::InvalidKey));
}

#[test]
fn hello_container_layout() {
    let key = key_of("K");
    let container = encrypt(b"hello", &key);
    let cipher = BlockCipher::new(&key);
    let fp = sha256(&key);
    let mut lo = [0u8; 16];
    lo.copy_from_slice(&fp[..16]);
    let mut hi = [0u8; 16];
    hi.copy_from_slice(&fp[16..]);
    assert_eq!(&container[..16], &cipher.encrypt_block(&lo)[..]);
    assert_eq!(&container[16..32], &cipher.encrypt_block(&hi)[..]);
    let mut padded = [0u8; 16];
    padded[..5].copy_from_slice(b"hello");
    padded[15] = 11;
    assert_eq!(&container[32..], &cipher.encrypt_block(&padded)[..]);
}

#[test]
fn boundary_lengths_round_trip() {
    let key = key_of("boundary");
    for len in [0usize, 1, 15, 16, 17] {
        let plain: Vec<u8> = (0..len).map(|i| (i + 1) as u8).collect();
        let container = encrypt(&plain, &key);
        assert_eq!(container.len(), 32 + 16 * (len / 16 + 1));
        assert_eq!(decrypt(&container, &key), Ok(plain));
    }
}

#[test]
fn sixteen_bytes_get_a_whole_padding_block() {
    let key = key_of("sixteen");
    let plain = *b"exactly16 bytes!";
    let container = encrypt(&plain, &key);
    assert_eq!(container.len(), 64);
    assert_eq!(decrypt(&container, &key), Ok(plain.to_vec()));
}

#[test]
fn equal_blocks_encrypt_equally() {
    let key = key_of("ecb");
    let plain = [0x41u8; 32];
    let container = encrypt(&plain, &key);
    assert_eq!(&container[32..48], &container[48..64]);
}

#[test]
fn wrong_key_is_refused() {
    let key = key_of("right");
    let container = encrypt(b"some secret text", &key);
    for other in ["wrong", "Right", "right "] {
        assert_eq!(decrypt(&container, &key_of(other)), Err(CryptileError::InvalidKey));
    }
}

#[test]
fn key_check_reads_only_the_header() {
    let key = key_of("right");
    let container = encrypt(b"some secret text", &key);
    assert_eq!(is_correct_key(&container, &key), Ok(true));
    assert_eq!(is_correct_key(&container[..32], &key), Ok(true));
    assert_eq!(is_correct_key(&container, &key_of("wrong")), Ok(false));
    assert_eq!(is_correct_key(&container[..31], &key), Err(CryptileError::UnexpectedEndOfStream));
}

#[test]
fn short_header_is_end_of_stream() {
    let key = key_of("k");
    assert_eq!(decrypt(&[0u8; 31], &key), Err(CryptileError::UnexpectedEndOfStream));
    assert_eq!(decrypt(&[], &key), Err(CryptileError::UnexpectedEndOfStream));
}

#[test]
fn header_without_body_is_end_of_stream() {
    let key = key_of("k");
    let container = encrypt(b"abc", &key);
    assert_eq!(decrypt(&container[..32], &key), Err(CryptileError::UnexpectedEndOfStream));
}

#[test]
fn partial_block_is_end_of_stream() {
    let key = key_of("k");
    let container = encrypt(b"abc", &key);
    assert_eq!(decrypt(&container[..40], &key), Err(CryptileError::UnexpectedEndOfStream));
    let mut longer = container.clone();
    longer.extend_from_slice(&[1, 2, 3]);
    assert_eq!(decrypt(&longer, &key), Err(CryptileError::UnexpectedEndOfStream));
}

#[test]
fn wrong_key_is_found_before_truncation() {
    let key = key_of("k");
    let container = encrypt(b"abc", &key);
    assert_eq!(decrypt(&container[..40], &key_of("j")), Err(CryptileError::InvalidKey));
}

#[test]
fn bad_padding_is_refused() {
    let key = key_of("pad");
    let cipher = BlockCipher::new(&key);
    let mut block = [0u8; 16];
    block[15] = 200;
    let container = seal(&key, &vec![cipher.encrypt_block(&block)]);
    assert_eq!(decrypt(&container, &key), Err(CryptileError::InvalidPadding));
}

#[test]
fn header_round_trip() {
    let key = key_of("header");
    let cipher = BlockCipher::new(&key);
    let fp = sha256(&key);
    let mut out = vec![0xee];
    write_header(&fp, &cipher, &mut out);
    assert_eq!(out.len(), 1 + HEADER_LEN);
    assert_ne!(&out[1..], &fp[..]);
    assert_eq!(read_header(&cipher, &out[1..]), Ok(fp));
    assert_eq!(read_header(&cipher, &out[1..32]), Err(CryptileError::UnexpectedEndOfStream));
}

#[test]
fn verify_key_compares_fingerprints() {
    let key = key_of("v");
    assert_eq!(verify_key(&key, &sha256(&key)), Ok(()));
    assert_eq!(verify_key(&key, &[0u8; 32]), Err(CryptileError::InvalidKey));
}

#[test]
fn open_body_hands_back_the_enciphered_blocks() {
    let key = key_of("body");
    let container = encrypt(&[3u8; 20], &key);
    let blocks = open_body(&container, &key).unwrap();
    assert_eq!(blocks.len(), 2);
    assert_eq!(&blocks[1][..], &container[48..64]);
    assert_eq!(open_body(&container, &key_of("x")), Err(CryptileError::InvalidKey));
}

#[test]
fn size_router_threshold() {
    assert_eq!(strategy_for(0), Strategy::Small);
    assert_eq!(strategy_for(SMALL_FILE_SIZE_LIMIT - 1), Strategy::Small);
    assert_eq!(strategy_for(SMALL_FILE_SIZE_LIMIT), Strategy::Large);
    assert_eq!(SMALL_FILE_SIZE_LIMIT, 26_214_400 * 3);
}

#[test]
fn container_layout_for_every_short_length() {
    let key = key_of("layout");
    let cipher = BlockCipher::new(&key);
    for len in 0usize..50 {
        let plain: Vec<u8> = (0..len).map(|i| (i * 3 + 1) as u8).collect();
        let container = encrypt(&plain, &key);
        assert_eq!(container.len(), 32 + 16 * (len / 16 + 1));
        let mut padded = plain.clone();
        let pad = 16 - len % 16;
        padded.extend(std::iter::repeat(0u8).take(pad - 1));
        padded.push(pad as u8);
        for (i, chunk) in padded.chunks(16).enumerate() {
            let mut block = [0u8; 16];
            block.copy_from_slice(chunk);
            assert_eq!(&container[32 + 16 * i..48 + 16 * i], &cipher.encrypt_block(&block)[..]);
        }
    }
}

#[test]
fn encryption_is_deterministic() {
    let key = key_of("same");
    assert_eq!(encrypt(b"repeatable input", &key), encrypt(b"repeatable input", &key));
}
