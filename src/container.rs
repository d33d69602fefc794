//! The container: a 32-byte header that holds the SHA-256 fingerprint of the
//! key, enciphered as two independent blocks, then the padded plaintext
//! enciphered block by block.
//!
//! Each block is enciphered on its own, with no chaining, and only the key is
//! checked, not the body: equal plaintext blocks give equal ciphertext
//! blocks, and a changed body is not detected.
use crate::cipher::{aes256_decrypt, aes256_encrypt, sha256, sha256_digest, Block, BlockCipher};
use crate::codec::{
    append_blocks, block_at, bytes_view, decode, encode, flatten, lemma_flatten_block,
    lemma_flatten_index, lemma_unpadded_padded, padded, push_block, to_blocks, unpadded,
};
use crate::error::CryptileError;
use crate::executor::{
    block_image, deciphers_to, lemma_transformed_pieces, transform_serial, transformed, Direction,
};
use vstd::prelude::*;

verus! {

/// The length of the header: two enciphered blocks.
pub const HEADER_LEN: usize = 32;

/// Inputs of at least this many bytes take the large-input strategy.
pub const SMALL_FILE_SIZE_LIMIT: u64 = 78_643_200;

/// How an input is processed, chosen by its size. Both strategies read the
/// whole input, transform its blocks and write them; the large one is where
/// a streaming strategy can take over without changing the small one.
#[derive(Clone, Copy, Debug, PartialEq, Eq, Structural)]
pub enum Strategy {
    Small,
    Large,
}

/// The strategy for an input of `size` bytes.
pub open spec fn strategy_of(size: u64) -> Strategy {
    if size < SMALL_FILE_SIZE_LIMIT {
        Strategy::Small
    } else {
        Strategy::Large
    }
}

/// Chooses the strategy for an input of `size` bytes.
pub fn strategy_for(size: u64) -> (r: Strategy)
    ensures
        r == strategy_of(size),
{
    if size < SMALL_FILE_SIZE_LIMIT {
        Strategy::Small
    } else {
        Strategy::Large
    }
}

/// The fingerprint of a key: its SHA-256 digest.
pub open spec fn fingerprint(key: Seq<u8>) -> Seq<u8> {
    sha256_digest(key)
}

/// A 32-byte fingerprint enciphered under `key`, as two independent blocks.
pub open spec fn enciphered_header(key: Seq<u8>, fp: Seq<u8>) -> Seq<u8> {
    aes256_encrypt(key, fp.subrange(0, 16)) + aes256_encrypt(key, fp.subrange(16, 32))
}

/// The fingerprint that a 32-byte header holds when deciphered under `key`.
pub open spec fn deciphered_header(key: Seq<u8>, header: Seq<u8>) -> Seq<u8> {
    aes256_decrypt(key, header.subrange(0, 16)) + aes256_decrypt(key, header.subrange(16, 32))
}

/// `bytes`, whose length is a multiple of 16, with every 16-byte block put
/// through the cipher on its own.
pub open spec fn blockwise(key: Seq<u8>, dir: Direction, bytes: Seq<u8>) -> Seq<u8> {
    Seq::new(
        bytes.len(),
        |k: int| block_image(key, dir, bytes.subrange(k - k % 16, k - k % 16 + 16))[k % 16],
    )
}

/// Block `i` of the body of container `c`: the 16 bytes after the header and
/// the `i` blocks before it.
pub open spec fn body_block(c: Seq<u8>, i: int) -> Seq<u8> {
    c.subrange(HEADER_LEN + 16 * i, HEADER_LEN + 16 * i + 16)
}

/// Block `i` of padded bytes.
pub open spec fn nth_block(bytes: Seq<u8>, i: int) -> Seq<u8> {
    bytes.subrange(16 * i, 16 * i + 16)
}

/// The container of `plain` under `key`.
pub open spec fn container_of(key: Seq<u8>, plain: Seq<u8>) -> Seq<u8> {
    enciphered_header(key, fingerprint(key)) + blockwise(key, Direction::Encrypt, padded(plain))
}

/// The enciphered body of container `c`, once its header shows that `key` is
/// the key it was made with: a short header, a wrong key, and a body that is
/// empty or ends in a partial block are refused, in that order.
pub open spec fn checked_body(key: Seq<u8>, c: Seq<u8>) -> Result<Seq<u8>, CryptileError> {
    if c.len() < HEADER_LEN {
        Err(CryptileError::UnexpectedEndOfStream)
    } else if deciphered_header(key, c.subrange(0, 32)) != fingerprint(key) {
        Err(CryptileError::InvalidKey)
    } else if c.len() == HEADER_LEN || (c.len() - HEADER_LEN) % 16 != 0 {
        Err(CryptileError::UnexpectedEndOfStream)
    } else {
        Ok(c.subrange(32, c.len() as int))
    }
}

/// The plaintext that container `c` holds under `key`.
pub open spec fn opened(key: Seq<u8>, c: Seq<u8>) -> Result<Seq<u8>, CryptileError> {
    match checked_body(key, c) {
        Ok(body) => unpadded(blockwise(key, Direction::Decrypt, body)),
        Err(e) => Err(e),
    }
}

/// Whether the header at the start of `c` was made with `key`.
pub open spec fn key_check(key: Seq<u8>, c: Seq<u8>) -> Result<bool, CryptileError> {
    if c.len() < HEADER_LEN {
        Err(CryptileError::UnexpectedEndOfStream)
    } else {
        Ok(deciphered_header(key, c.subrange(0, 32)) == fingerprint(key))
    }
}

/// Flattening transformed blocks is transforming the flattened blocks.
pub proof fn lemma_flatten_transformed(key: Seq<u8>, dir: Direction, input: Seq<Block>, output: Seq<Block>)
    requires
        transformed(key, dir, input, output),
    ensures
        flatten(output) == blockwise(key, dir, flatten(input)),
{
    let f = flatten(output);
    let g = blockwise(key, dir, flatten(input));
    assert forall|k: int| 0 <= k < f.len() implies f[k] == g[k] by {
        let i = k / 16;
        let j = k % 16;
        lemma_flatten_index(output, i, j);
        lemma_flatten_block(input, i);
    }
}

/// A container whose header does not decipher under `other` to the
/// fingerprint of `other` is refused with `InvalidKey`: opening it yields no
/// plaintext, and the key check answers `false`. This is what happens to a
/// container made under one key and opened under another, unless the two
/// keys collide on their fingerprints through the cipher.
pub proof fn lemma_wrong_key_refused(other: Seq<u8>, c: Seq<u8>)
    requires
        c.len() >= HEADER_LEN,
        deciphered_header(other, c.subrange(0, 32)) != fingerprint(other),
    ensures
        opened(other, c) == Err::<Seq<u8>, CryptileError>(CryptileError::InvalidKey),
        key_check(other, c) == Ok::<bool, CryptileError>(false),
{
}

/// Writes the fingerprint, enciphered under `cipher` as two independent
/// blocks, to the end of `out`.
pub fn write_header(fingerprint: &[u8; 32], cipher: &BlockCipher, out: &mut Vec<u8>)
    ensures
        final(out)@ == old(out)@ + enciphered_header(cipher.key(), fingerprint@),
        aes256_encrypt(cipher.key(), fingerprint@.subrange(0, 16)).len() == 16,
        aes256_encrypt(cipher.key(), fingerprint@.subrange(16, 32)).len() == 16,
        deciphered_header(cipher.key(), enciphered_header(cipher.key(), fingerprint@)) == fingerprint@,
{
    let lo = block_at(fingerprint, 0);
    let hi = block_at(fingerprint, 16);
    let sealed_lo = cipher.encrypt_block(&lo);
    let sealed_hi = cipher.encrypt_block(&hi);
    push_block(out, &sealed_lo);
    push_block(out, &sealed_hi);
    proof {
        let h = enciphered_header(cipher.key(), fingerprint@);
        assert(h.subrange(0, 16) =~= sealed_lo@);
        assert(h.subrange(16, 32) =~= sealed_hi@);
        assert(deciphered_header(cipher.key(), h) =~= fingerprint@);
    }
}

/// Reads the header at the start of `input` and deciphers its two blocks
/// into the fingerprint it holds.
pub fn read_header(cipher: &BlockCipher, input: &[u8]) -> (r: Result<[u8; 32], CryptileError>)
    ensures
        input@.len() < HEADER_LEN ==> r == Err::<[u8; 32], CryptileError>(
            CryptileError::UnexpectedEndOfStream,
        ),
        input@.len() >= HEADER_LEN ==> (r matches Ok(fp) && fp@ == deciphered_header(
            cipher.key(),
            input@.subrange(0, 32),
        )),
{
    if input.len() < HEADER_LEN {
        return Err(CryptileError::UnexpectedEndOfStream);
    }
    let lo = cipher.decrypt_block(&block_at(input, 0));
    let hi = cipher.decrypt_block(&block_at(input, 16));
    let mut fp = [0u8; 32];
    let mut j: usize = 0;
    while j < 16
        invariant
            j <= 16,
            forall|k: int| 0 <= k < j ==> #[trigger] fp@[k] == lo@[k],
            forall|k: int| 0 <= k < j ==> #[trigger] fp@[16 + k] == hi@[k],
        decreases 16 - j,
    {
        fp[j] = lo[j];
        fp[16 + j] = hi[j];
        j += 1;
    }
    proof {
        assert(input@.subrange(0, 32).subrange(0, 16) =~= input@.subrange(0, 16));
        assert(input@.subrange(0, 32).subrange(16, 32) =~= input@.subrange(16, 32));
        assert forall|m: int| 16 <= m < 32 implies fp@[m] == hi@[m - 16] by {
            assert(fp@[16 + (m - 16)] == hi@[m - 16]);
        }
    }
    Ok(fp)
}

/// Whether two 32-byte values are equal, byte for byte.
fn same_bytes(a: &[u8; 32], b: &[u8; 32]) -> (r: bool)
    ensures
        r == (a@ == b@),
{
    let mut j: usize = 0;
    while j < 32
        invariant
            j <= 32,
            forall|k: int| 0 <= k < j ==> #[trigger] a@[k] == b@[k],
        decreases 32 - j,
    {
        if a[j] != b[j] {
            return false;
        }
        j += 1;
    }
    assert(a@ =~= b@);
    true
}

/// Checks a stored fingerprint against the fingerprint of `key`; any
/// difference means the key is not the one the container was made with.
pub fn verify_key(key: &[u8; 32], stored: &[u8; 32]) -> (r: Result<(), CryptileError>)
    ensures
        r is Ok <==> stored@ == fingerprint(key@),
        r matches Err(e) ==> e == CryptileError::InvalidKey,
{
    let expected = sha256(key);
    if same_bytes(&expected, stored) {
        Ok(())
    } else {
        Err(CryptileError::InvalidKey)
    }
}

/// Whether `key` is the key that the container starting with `header` was
/// made with. Only the header is read and deciphered.
pub fn is_correct_key(header: &[u8], key: &[u8; 32]) -> (r: Result<bool, CryptileError>)
    ensures
        r == key_check(key@, header@),
{
    let cipher = BlockCipher::new(key);
    match read_header(&cipher, header) {
        Err(e) => Err(e),
        Ok(stored) => Ok(verify_key(key, &stored).is_ok()),
    }
}

/// Checks the header of container `c` against `key`, then hands back its
/// enciphered body as blocks, before any block of it is deciphered.
pub fn open_body(c: &[u8], key: &[u8; 32]) -> (r: Result<Vec<Block>, CryptileError>)
    ensures
        match r {
            Ok(blocks) => checked_body(key@, c@) == Ok::<Seq<u8>, CryptileError>(flatten(blocks@)),
            Err(e) => checked_body(key@, c@) == Err::<Seq<u8>, CryptileError>(e),
        },
{
    let cipher = BlockCipher::new(key);
    let stored = match read_header(&cipher, c) {
        Err(e) => return Err(e),
        Ok(fp) => fp,
    };
    if let Err(e) = verify_key(key, &stored) {
        return Err(e);
    }
    let n = c.len();
    if n == HEADER_LEN || (n - HEADER_LEN) % 16 != 0 {
        return Err(CryptileError::UnexpectedEndOfStream);
    }
    Ok(to_blocks(c, HEADER_LEN))
}

/// The container made of the header for `key` and the enciphered blocks.
pub fn seal(key: &[u8; 32], sealed_blocks: &Vec<Block>) -> (r: Vec<u8>)
    ensures
        r@ == enciphered_header(key@, fingerprint(key@)) + flatten(sealed_blocks@),
        r@.len() == HEADER_LEN + 16 * sealed_blocks@.len(),
        r@.subrange(0, 16) == aes256_encrypt(key@, fingerprint(key@).subrange(0, 16)),
        r@.subrange(16, 32) == aes256_encrypt(key@, fingerprint(key@).subrange(16, 32)),
        r@.subrange(32, r@.len() as int) == flatten(sealed_blocks@),
        deciphered_header(key@, r@.subrange(0, 32)) == fingerprint(key@),
{
    let cipher = BlockCipher::new(key);
    let fp = sha256(key);
    let mut out: Vec<u8> = Vec::new();
    write_header(&fp, &cipher, &mut out);
    append_blocks(&mut out, sealed_blocks);
    proof {
        let h = enciphered_header(key@, fp@);
        assert(out@.subrange(0, 32) =~= h);
        assert(out@.subrange(0, 16) =~= h.subrange(0, 16));
        assert(out@.subrange(16, 32) =~= h.subrange(16, 32));
        assert(out@.subrange(32, out@.len() as int) =~= flatten(sealed_blocks@));
    }
    out
}

/// Encrypts `plain` under `key` into a container: the two enciphered halves
/// of the key's fingerprint, then each 16-byte block of the padded plaintext
/// enciphered on its own. The container opens under the same key to `plain`
/// again, whatever its length.
pub fn encrypt(plain: &[u8], key: &[u8; 32]) -> (r: Vec<u8>)
    ensures
        r@ == container_of(key@, plain@),
        r@.len() == HEADER_LEN + 16 * (plain@.len() / 16 + 1),
        r@.subrange(0, 16) == aes256_encrypt(key@, fingerprint(key@).subrange(0, 16)),
        r@.subrange(16, 32) == aes256_encrypt(key@, fingerprint(key@).subrange(16, 32)),
        forall|i: int|
            0 <= i < padded(plain@).len() / 16 ==> #[trigger] body_block(r@, i) == aes256_encrypt(
                key@,
                nth_block(padded(plain@), i),
            ),
        opened(key@, r@) == Ok::<Seq<u8>, CryptileError>(plain@),
{
    let cipher = BlockCipher::new(key);
    let mut blocks = encode(plain);
    let ghost plain_blocks = blocks@;
    transform_serial(&cipher, Direction::Encrypt, &mut blocks);
    let r = seal(key, &blocks);
    proof {
        lemma_flatten_transformed(key@, Direction::Encrypt, plain_blocks, blocks@);
        assert(transformed(key@, Direction::Decrypt, blocks@, plain_blocks));
        lemma_flatten_transformed(key@, Direction::Decrypt, blocks@, plain_blocks);
        lemma_unpadded_padded(plain@);
        assert(padded(plain@).len() == 16 * (plain@.len() / 16 + 1));
        assert forall|i: int| 0 <= i < padded(plain@).len() / 16 implies #[trigger] body_block(r@, i)
            == aes256_encrypt(key@, nth_block(padded(plain@), i)) by {
            lemma_flatten_block(blocks@, i);
            lemma_flatten_block(plain_blocks, i);
            assert(r@.subrange(32 + 16 * i, 48 + 16 * i) =~= flatten(blocks@).subrange(16 * i, 16 * i + 16));
        }
    }
    r
}

/// Decrypts container `c` under `key`: the header is checked first, and a
/// wrong key is refused before any block of the body is deciphered.
pub fn decrypt(c: &[u8], key: &[u8; 32]) -> (r: Result<Vec<u8>, CryptileError>)
    ensures
        bytes_view(r) == opened(key@, c@),
{
    let mut blocks = match open_body(c, key) {
        Err(e) => return Err(e),
        Ok(blocks) => blocks,
    };
    let ghost sealed_blocks = blocks@;
    let cipher = BlockCipher::new(key);
    transform_serial(&cipher, Direction::Decrypt, &mut blocks);
    proof {
        lemma_flatten_transformed(key@, Direction::Decrypt, sealed_blocks, blocks@);
    }
    decode(&blocks)
}

/// Encrypting in pieces makes the same container: when the encoded blocks
/// of `plain` are cut into pieces, each piece is enciphered on its own and
/// the pieces are gathered in order, the header for `key` followed by the
/// gathered blocks is the container of `plain`.
pub proof fn lemma_sealed_pieces(
    key: Seq<u8>,
    plain: Seq<u8>,
    pieces: Seq<Seq<Block>>,
    outs: Seq<Seq<Block>>,
)
    requires
        flatten(pieces.flatten()) == padded(plain),
        outs.len() == pieces.len(),
        forall|i: int|
            0 <= i < pieces.len() ==> transformed(key, Direction::Encrypt, #[trigger] pieces[i], outs[i]),
    ensures
        enciphered_header(key, fingerprint(key)) + flatten(outs.flatten()) == container_of(key, plain),
{
    lemma_transformed_pieces(key, Direction::Encrypt, pieces, outs);
    lemma_flatten_transformed(key, Direction::Encrypt, pieces.flatten(), outs.flatten());
}

/// Decrypting in pieces gives the same plaintext: when the body blocks that
/// the header check hands back are cut into pieces, each piece is deciphered
/// on its own and the pieces are gathered in order, decoding the gathered
/// blocks gives what the container opens to.
pub proof fn lemma_opened_pieces(
    key: Seq<u8>,
    c: Seq<u8>,
    body: Seq<Block>,
    pieces: Seq<Seq<Block>>,
    outs: Seq<Seq<Block>>,
)
    requires
        checked_body(key, c) == Ok::<Seq<u8>, CryptileError>(flatten(body)),
        pieces.flatten() == body,
        outs.len() == pieces.len(),
        forall|i: int|
            0 <= i < pieces.len() ==> transformed(key, Direction::Decrypt, #[trigger] pieces[i], outs[i]),
    ensures
        unpadded(flatten(outs.flatten())) == opened(key, c),
{
    lemma_transformed_pieces(key, Direction::Decrypt, pieces, outs);
    lemma_flatten_transformed(key, Direction::Decrypt, body, outs.flatten());
}

} // verus!
