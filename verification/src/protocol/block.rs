use ::aes::cipher::generic_array::GenericArray;
use ::aes::cipher::{BlockDecrypt, BlockEncrypt, KeyInit};
use vstd::prelude::*;

verus! {

/// What `aes::Aes256` makes of the 16-byte `block` under the 32-byte `key`
/// when it encrypts.
pub uninterp spec fn aes256_encrypt_block(key: Seq<u8>, block: Seq<u8>) -> Seq<u8>;

/// What `aes::Aes256` makes of the 16-byte `block` under the 32-byte `key`
/// when it decrypts.
pub uninterp spec fn aes256_decrypt_block(key: Seq<u8>, block: Seq<u8>) -> Seq<u8>;

/// Encrypts one block with `aes::Aes256` (`KeyInit::new` on `key`, then
/// `BlockEncrypt::encrypt_block`). Claimed: the result is the named
/// encryption of `block` under `key`; AES-256 itself is not stated.
#[verifier::external_body]
fn aes256_block_encrypt(key: &[u8; 32], block: [u8; 16]) -> (out: [u8; 16])
    ensures
        out@ == aes256_encrypt_block(key@, block@),
{
    let cipher = ::aes::Aes256::new(GenericArray::from_slice(key));
    let mut b = GenericArray::clone_from_slice(&block);
    cipher.encrypt_block(&mut b);
    b.into()
}

/// Decrypts one block with `aes::Aes256` (`KeyInit::new` on `key`, then
/// `BlockDecrypt::decrypt_block`). Claimed: the result is the named
/// decryption of `block` under `key`; AES-256 itself is not stated.
#[verifier::external_body]
fn aes256_block_decrypt(key: &[u8; 32], block: [u8; 16]) -> (out: [u8; 16])
    ensures
        out@ == aes256_decrypt_block(key@, block@),
{
    let cipher = ::aes::Aes256::new(GenericArray::from_slice(key));
    let mut b = GenericArray::clone_from_slice(&block);
    cipher.decrypt_block(&mut b);
    b.into()
}

/// A block cipher codec: AES-256 on single 16-byte blocks under a fixed key.
pub struct Codec {
    key: [u8; 32],
}

impl Codec {
    /// The key the codec encrypts with.
    pub closed spec fn key(&self) -> Seq<u8> {
        self.key@
    }

    /// A codec for `key`.
    pub fn new(key: [u8; 32]) -> (c: Codec)
        ensures
            c.key() == key@,
    {
        Codec { key }
    }

    /// Decrypts one block and discards the result: nothing comes back and
    /// nothing changes.
    pub fn decode(&self, block: [u8; 16]) {
        let _ = aes256_block_decrypt(&self.key, block);
    }

    /// Encrypts one block and discards the result: nothing comes back and
    /// nothing changes.
    pub fn encode(&self, block: [u8; 16]) {
        let _ = aes256_block_encrypt(&self.key, block);
    }
}

} // verus!
