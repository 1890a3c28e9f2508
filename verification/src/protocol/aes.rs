use soft_aes::aes::{aes_dec_ecb, aes_enc_ecb};
use vstd::prelude::*;

use crate::error::{CodecError, CodecErrorModel};

verus! {

/// What `soft_aes::aes::aes_enc_block` makes of the 16-byte `block` under
/// the 32-byte `key`.
pub uninterp spec fn soft_aes_encrypt_block(key: Seq<u8>, block: Seq<u8>) -> [u8; 16];

/// What `soft_aes::aes::aes_dec_block` makes of the 16-byte `block` under
/// the 32-byte `key`.
pub uninterp spec fn soft_aes_decrypt_block(key: Seq<u8>, block: Seq<u8>) -> [u8; 16];

/// The length of the ECB ciphertext of `n` bytes: the `0x80` padding always
/// adds one byte, then zeros up to a whole number of 16-byte blocks.
pub open spec fn padded_len(n: nat) -> nat {
    (n / 16 + 1) * 16
}

/// `data` padded by ISO/IEC 9797-1 method 2: one `0x80` byte, then zeros up
/// to a whole number of 16-byte blocks.
pub open spec fn pad80(data: Seq<u8>) -> Seq<u8> {
    data + seq![0x80u8] + Seq::new((padded_len(data.len()) - data.len() - 1) as nat, |i: int| 0u8)
}

/// `padded` with its `0x80` padding removed: trailing zeros are skipped, and
/// the `0x80` byte before them is cut together with them. `None` when the
/// bytes after the last `0x80` are not all zero, or there is no `0x80`.
pub open spec fn unpad80(padded: Seq<u8>) -> Option<Seq<u8>>
    decreases padded.len(),
{
    if padded.len() == 0 {
        None
    } else if padded.last() == 0x80 {
        Some(padded.drop_last())
    } else if padded.last() == 0 {
        unpad80(padded.drop_last())
    } else {
        None
    }
}

/// The message `unpad_80` fails with on `padded`: the padding is invalid
/// when there is a `0x80` byte but something other than zeros follows the
/// last one, and missing when there is no `0x80` byte at all.
pub open spec fn unpad80_error(padded: Seq<u8>) -> Seq<char> {
    if padded.contains(0x80u8) {
        "0x80 UNPADDING ERROR: Invalid padding"@
    } else {
        "0x80 UNPADDING ERROR: Padding byte not found"@
    }
}

/// The 16-byte block number `i` of `s`.
pub open spec fn block_of(s: Seq<u8>, i: int) -> Seq<u8> {
    s.subrange(16 * i, 16 * i + 16)
}

/// ECB encryption of whole blocks: each block of `s` is encrypted on its
/// own with the block cipher.
pub open spec fn ecb_encrypt_blocks(key: Seq<u8>, s: Seq<u8>) -> Seq<u8> {
    Seq::new(s.len(), |j: int| soft_aes_encrypt_block(key, block_of(s, j / 16))@[j % 16])
}

/// ECB decryption of whole blocks: each block of `s` is decrypted on its
/// own with the block cipher.
pub open spec fn ecb_decrypt_blocks(key: Seq<u8>, s: Seq<u8>) -> Seq<u8> {
    Seq::new(s.len(), |j: int| soft_aes_decrypt_block(key, block_of(s, j / 16))@[j % 16])
}

/// What `aes_enc_ecb` returns with `0x80` padding: the padded data,
/// encrypted block by block.
pub open spec fn ecb_encrypt(key: Seq<u8>, data: Seq<u8>) -> Seq<u8> {
    ecb_encrypt_blocks(key, pad80(data))
}

/// What `aes_dec_ecb` returns with `0x80` padding: `None` for data that is
/// not made of whole blocks; otherwise the data decrypted block by block,
/// with its padding removed, or `None` where the padding is malformed.
pub open spec fn ecb_decrypt(key: Seq<u8>, data: Seq<u8>) -> Option<Seq<u8>> {
    if data.len() % 16 != 0 {
        None
    } else {
        unpad80(ecb_decrypt_blocks(key, data))
    }
}

/// The message `aes_dec_ecb` fails with when `ecb_decrypt` is `None`.
pub open spec fn ecb_decrypt_error(key: Seq<u8>, data: Seq<u8>) -> Seq<char> {
    if data.len() % 16 != 0 {
        "AES DEC ECB Error: Ciphertext must be a multiple of AES_BLOCK_SIZE"@
    } else {
        unpad80_error(ecb_decrypt_blocks(key, data))
    }
}

/// Calls `soft_aes::aes::aes_enc_ecb(data, key, Some("0x80"))`. Claimed: it
/// succeeds (the source fails only for a key that is not 16, 24 or 32 bytes
/// long, or for a zero block size), and its result is `data` padded by
/// `pad_80` to whole blocks, each block encrypted by `aes_enc_block`. The
/// block cipher itself is only named.
#[verifier::external_body]
fn ecb_encrypt_call(data: &[u8], key: &[u8; 32]) -> (r: Result<Vec<u8>, CodecError>)
    ensures
        r is Ok,
        r->Ok_0@.len() == padded_len(data@.len()),
        forall|j: int|
            0 <= j < r->Ok_0@.len() ==> #[trigger] r->Ok_0@[j] == soft_aes_encrypt_block(
                key@,
                block_of(pad80(data@), j / 16),
            )@[j % 16],
{
    match aes_enc_ecb(data, key, Some("0x80")) {
        Ok(c) => Ok(c),
        Err(e) => Err(CodecError::Cipher(e.to_string())),
    }
}

/// Calls `soft_aes::aes::aes_dec_ecb(data, key, Some("0x80"))`. Claimed: it
/// fails on data that is not made of whole blocks; otherwise it decrypts
/// each block by `aes_dec_block` and removes the padding as `unpad_80` does,
/// failing where that finds none; its error carries the source's message
/// for each of these failures; and, as the crate's documentation shows,
/// it gives back what `aes_enc_ecb` encrypted under the same key (the block
/// decryption undoes the block encryption, which the names alone do not
/// say).
#[verifier::external_body]
fn ecb_decrypt_call(data: &[u8], key: &[u8; 32]) -> (r: Result<Vec<u8>, CodecError>)
    ensures
        data@.len() % 16 != 0 ==> r is Err,
        data@.len() % 16 == 0 ==> (r is Ok <==> unpad80(
            Seq::new(data@.len(), |j: int| soft_aes_decrypt_block(key@, block_of(data@, j / 16))@[j % 16]),
        ) is Some),
        r is Ok ==> unpad80(
            Seq::new(data@.len(), |j: int| soft_aes_decrypt_block(key@, block_of(data@, j / 16))@[j % 16]),
        ) == Some(r->Ok_0@),
        r is Err ==> r->Err_0@ == CodecErrorModel::Cipher(ecb_decrypt_error(key@, data@)),
        forall|x: Seq<u8>| #[trigger] ecb_encrypt(key@, x) == data@ ==> r is Ok && r->Ok_0@ == x,
{
    match aes_dec_ecb(data, key, Some("0x80")) {
        Ok(p) => Ok(p),
        Err(e) => Err(CodecError::Cipher(e.to_string())),
    }
}

/// Removing the padding cuts at least the `0x80` byte.
proof fn lemma_unpad80_shorter(padded: Seq<u8>)
    ensures
        unpad80(padded) matches Some(p) ==> p.len() < padded.len(),
    decreases padded.len(),
{
    if padded.len() > 0 && padded.last() != 0x80 && padded.last() == 0 {
        lemma_unpad80_shorter(padded.drop_last());
    }
}

/// AES-256 in ECB mode with `0x80` padding, under a fixed key.
#[derive(Debug)]
pub struct Codec256 {
    key: [u8; 32],
}

impl Codec256 {
    /// The key the codec encrypts with.
    pub closed spec fn key(&self) -> Seq<u8> {
        self.key@
    }

    /// A codec for `key`.
    pub fn new(key: [u8; 32]) -> (c: Self)
        ensures
            c.key() == key@,
    {
        Self { key }
    }

    /// Decrypts `data` and strips its padding. It fails, with
    /// `CodecError::Cipher` and the cipher's message, on data that is not
    /// made of whole blocks or whose padding is malformed; what `encode`
    /// produced decodes back to what was encoded.
    pub fn decode(&self, data: &[u8]) -> (r: Result<Vec<u8>, CodecError>)
        ensures
            r is Ok <==> ecb_decrypt(self.key(), data@) is Some,
            r matches Ok(p) ==> ecb_decrypt(self.key(), data@) == Some(p@) && p@.len() < data@.len(),
            r matches Err(e) ==> e@ == CodecErrorModel::Cipher(ecb_decrypt_error(self.key(), data@)),
            data@.len() % 16 != 0 ==> r is Err,
            forall|x: Seq<u8>| #[trigger] ecb_encrypt(self.key(), x) == data@ ==> (r matches Ok(p) && p@ == x),
    {
        proof {
            lemma_unpad80_shorter(ecb_decrypt_blocks(self.key(), data@));
        }
        let r = ecb_decrypt_call(data, &self.key);
        assert(ecb_decrypt_blocks(self.key(), data@) =~= Seq::new(
            data@.len(),
            |j: int| soft_aes_decrypt_block(self.key(), block_of(data@, j / 16))@[j % 16],
        ));
        r
    }

    /// Pads `data` and encrypts it block by block; this always succeeds,
    /// with a whole number of blocks, at least one more byte than `data`.
    /// Each whole block of `data` comes out as its block encryption.
    pub fn encode(&self, data: &[u8]) -> (r: Result<Vec<u8>, CodecError>)
        ensures
            r is Ok,
            r->Ok_0@ == ecb_encrypt(self.key(), data@),
            r->Ok_0@.len() == padded_len(data@.len()),
            forall|i: int|
                0 <= i < data@.len() / 16 ==> #[trigger] block_of(r->Ok_0@, i)
                    == soft_aes_encrypt_block(self.key(), block_of(data@, i))@,
    {
        let r = ecb_encrypt_call(data, &self.key);
        proof {
            let c = r->Ok_0@;
            let p = pad80(data@);
            assert(p.len() == padded_len(data@.len()));
            assert(c =~= ecb_encrypt(self.key(), data@));
            assert forall|i: int| 0 <= i < data@.len() / 16 implies #[trigger] block_of(c, i)
                == soft_aes_encrypt_block(self.key(), block_of(data@, i))@ by {
                assert(block_of(p, i) =~= block_of(data@, i));
                let e = soft_aes_encrypt_block(self.key(), block_of(data@, i))@;
                assert(e.len() == 16);
                assert forall|j: int| 0 <= j < 16 implies block_of(c, i)[j] == e[j] by {
                    assert((16 * i + j) / 16 == i) by (nonlinear_arith)
                        requires
                            0 <= j < 16,
                    ;
                    assert((16 * i + j) % 16 == j) by (nonlinear_arith)
                        requires
                            0 <= j < 16,
                    ;
                }
                assert(block_of(c, i) =~= e);
            }
        }
        r
    }
}

} // verus!
