//! Encrypts and decrypts a file's contents with AES-256 under a 32-byte key.
//!
//! A container holds a 32-byte header, the SHA-256 fingerprint of the key
//! enciphered as two blocks, then the contents, padded and enciphered block
//! by block. Decrypting checks the fingerprint before it deciphers any block.
//! The padding always ends the last block with a count of 1 to 16 padding
//! bytes, so every input decrypts back to itself, whatever its length.
pub mod cipher;
pub mod codec;
pub mod config;
pub mod container;
pub mod error;
pub mod executor;
pub mod paths;

pub use container::{decrypt, encrypt, is_correct_key};
pub use error::CryptileError;
pub use paths::FILE_EXTENSION;
