use one_proxy::error::CodecError;
use one_proxy::protocol::aes::Codec256;
use one_proxy::protocol::block::Codec;

fn fips_key() -> [u8; 32] {
    let mut k = [0u8; 32];
    for (i, b) in k.iter_mut().enumerate() {
        *b = i as u8;
    }
    k
}

const FIPS_PLAIN: [u8; 16] =
    [0x00, 0x11, 0x22, 0x33, 0x44, 0x55, 0x66, 0x77, 0x88, 0x99, 0xaa, 0xbb, 0xcc, 0xdd, 0xee, 0xff];
const FIPS_CIPHER: [u8; 16] =
    [0x8e, 0xa2, 0xb7, 0xca, 0x51, 0x67, 0x45, 0xbf, 0xea, 0xfc, 0x49, 0x90, 0x4b, 0x49, 0x60, 0x89];

#[test]
fn block_codec_drops_its_result() {
    // The block is processed in a copy that is then dropped.
    let c = Codec::new(fips_key());
    c.encode(FIPS_PLAIN);
    c.decode(FIPS_CIPHER);
}

#[test]
fn ecb_codec_matches_the_aes256_test_vector() {
    let c = Codec256::new(fips_key());
    let out = c.encode(&FIPS_PLAIN).unwrap();
    assert_eq!(&out[..16], &FIPS_CIPHER[..]);
}

#[test]
fn ecb_codec_pads_to_whole_blocks() {
    let c = Codec256::new(fips_key());
    assert_eq!(c.encode(&[]).unwrap().len(), 16);
    assert_eq!(c.encode(&[1; 15]).unwrap().len(), 16);
    assert_eq!(c.encode(&[1; 16]).unwrap().len(), 32);
    assert_eq!(c.encode(&[1; 17]).unwrap().len(), 32);
}

#[test]
fn ecb_codec_encrypts_the_padded_block() {
    // One full block of plaintext, then a block of padding (0x80 and zeros),
    // which is what the empty message encrypts to.
    let c = Codec256::new(fips_key());
    let out = c.encode(&FIPS_PLAIN).unwrap();
    assert_eq!(&out[16..], &c.encode(&[]).unwrap()[..]);
}

#[test]
fn ecb_codec_round_trip() {
    let c = Codec256::new([3u8; 32]);
    for n in [0usize, 1, 15, 16, 17, 31, 32, 100] {
        let data: Vec<u8> = (0..n).map(|i| (i * 7) as u8).collect();
        let enc = c.encode(&data).unwrap();
        assert_ne!(enc, data);
        assert_eq!(c.decode(&enc).unwrap(), data);
    }
}

#[test]
fn ecb_codec_rejects_partial_blocks() {
    let c = Codec256::new([3u8; 32]);
    let msg = CodecError::Cipher("AES DEC ECB Error: Ciphertext must be a multiple of AES_BLOCK_SIZE".to_string());
    assert_eq!(c.decode(&[0u8; 15]), Err(msg.clone()));
    assert_eq!(c.decode(&[0u8; 33]), Err(msg));
}

#[test]
fn ecb_codec_rejects_missing_padding() {
    // The first block of the encryption of sixteen zero bytes decrypts to
    // zeros alone: there is no 0x80 to strip.
    let c = Codec256::new([3u8; 32]);
    let out = c.encode(&[0u8; 16]).unwrap();
    assert_eq!(
        c.decode(&out[..16]),
        Err(CodecError::Cipher("0x80 UNPADDING ERROR: Padding byte not found".to_string()))
    );
    assert_eq!(
        c.decode(&[]),
        Err(CodecError::Cipher("0x80 UNPADDING ERROR: Padding byte not found".to_string()))
    );
}

#[test]
fn ecb_codec_rejects_invalid_padding() {
    // Sixteen 0xFF bytes after one whole block of padding: the block decrypts
    // to 0xFF bytes, so after the last 0x80 (in the first block) come bytes
    // that are not zero.
    let c = Codec256::new([3u8; 32]);
    let pad = c.encode(&[]).unwrap();
    let ff = c.encode(&[0xffu8; 16]).unwrap();
    let mut data = pad.clone();
    data.extend_from_slice(&ff[..16]);
    assert_eq!(
        c.decode(&data),
        Err(CodecError::Cipher("0x80 UNPADDING ERROR: Invalid padding".to_string()))
    );
}

#[test]
fn ecb_codec_depends_on_the_key() {
    let a = Codec256::new([1u8; 32]).encode(b"hello").unwrap();
    let b = Codec256::new([2u8; 32]).encode(b"hello").unwrap();
    assert_ne!(a, b);
}
