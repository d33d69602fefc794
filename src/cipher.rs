//! The keyed block transform and the key fingerprint, taken from the `aes`
//! and `hmac-sha256` crates.
use aes::cipher::generic_array::GenericArray;
use aes::cipher::{BlockDecrypt, BlockEncrypt, KeyInit};
use aes::Aes256;
use vstd::prelude::*;

verus! {

/// A 16-byte cipher block.
pub type Block = [u8; 16];

#[verifier::external_type_specification]
#[verifier::external_body]
pub struct ExAes256(Aes256);

/// The SHA-256 digest of `data`.
pub uninterp spec fn sha256_digest(data: Seq<u8>) -> Seq<u8>;

/// AES-256 encryption of one 16-byte block under a 32-byte key.
pub uninterp spec fn aes256_encrypt(key: Seq<u8>, block: Seq<u8>) -> Seq<u8>;

/// AES-256 decryption of one 16-byte block under a 32-byte key.
pub uninterp spec fn aes256_decrypt(key: Seq<u8>, block: Seq<u8>) -> Seq<u8>;

/// Relies on `hmac_sha256::Hash::hash`: the SHA-256 digest of the input.
#[verifier::external_body]
pub fn sha256(data: &[u8]) -> (r: [u8; 32])
    ensures
        r@ == sha256_digest(data@),
{
    hmac_sha256::Hash::hash(data)
}

/// An AES-256 cipher, stateless once keyed; `key` is the key it was built from.
pub struct BlockCipher {
    aes: Aes256,
    key: Ghost<Seq<u8>>,
}

impl BlockCipher {
    /// The 32-byte key this cipher was built from.
    pub closed spec fn key(&self) -> Seq<u8> {
        self.key@
    }

    /// Relies on `aes::Aes256::new` (`KeyInit`): the cipher keyed by `key`.
    #[verifier::external_body]
    pub fn new(key: &[u8; 32]) -> (r: Self)
        ensures
            r.key() == key@,
    {
        BlockCipher { aes: Aes256::new(&GenericArray::from(*key)), key: Ghost(key@) }
    }

    /// Relies on `BlockEncrypt::encrypt_block` of `aes::Aes256`: the block
    /// enciphered under the key; a block cipher is a permutation, which
    /// `decrypt_block` inverts.
    #[verifier::external_body]
    pub fn encrypt_block(&self, block: &Block) -> (r: Block)
        ensures
            r@ == aes256_encrypt(self.key(), block@),
            aes256_decrypt(self.key(), r@) == block@,
    {
        let mut b = GenericArray::from(*block);
        self.aes.encrypt_block(&mut b);
        b.into()
    }

    /// Relies on `BlockDecrypt::decrypt_block` of `aes::Aes256`: the block
    /// deciphered under the key.
    #[verifier::external_body]
    pub fn decrypt_block(&self, block: &Block) -> (r: Block)
        ensures
            r@ == aes256_decrypt(self.key(), block@),
    {
        let mut b = GenericArray::from(*block);
        self.aes.decrypt_block(&mut b);
        b.into()
    }
}

} // verus!
