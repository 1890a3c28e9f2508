use one_proxy::error::{CodecError, Error, ProtocolError};
use one_proxy::protocol::aes::Codec256;
use one_proxy::stream::{msg_frame, msg_frame_len, parse_msg_frame, parse_one_frame, AesReadBuffer};

#[test]
fn msg_frame_prefixes_the_big_endian_length() {
    assert_eq!(msg_frame(b"abc"), vec![0, 0, 0, 3, b'a', b'b', b'c']);
    assert_eq!(msg_frame(&[]), vec![0, 0, 0, 0]);
    let big = vec![9u8; 0x0102];
    let f = msg_frame(&big);
    assert_eq!(&f[..4], &[0, 0, 1, 2]);
    assert_eq!(&f[4..], &big[..]);
}

#[test]
fn msg_frame_len_reads_big_endian() {
    assert_eq!(msg_frame_len(&[0x01, 0x02, 0x03, 0x04]), 0x0102_0304);
    assert_eq!(msg_frame_len(&[0xff, 0xff, 0xff, 0xff]), u32::MAX);
}

#[test]
fn msg_frame_round_trip() {
    for msg in [&b""[..], b"x", b"hello world"] {
        let mut f = msg_frame(msg);
        let n = f.len();
        f.extend_from_slice(b"next");
        assert_eq!(parse_msg_frame(&f), Some((msg.to_vec(), n)));
    }
}

#[test]
fn msg_frame_waits_for_the_whole_frame() {
    let f = msg_frame(b"hello");
    for end in 0..f.len() {
        assert_eq!(parse_msg_frame(&f[..end]), None);
    }
}

#[test]
fn one_frame_reads_a_length_byte_then_payload() {
    assert_eq!(parse_one_frame(&[3, 1, 2, 3, 4]), Some((vec![1, 2, 3], 4)));
    assert_eq!(parse_one_frame(&[0]), Some((vec![], 1)));
    assert_eq!(parse_one_frame(&[]), None);
    assert_eq!(parse_one_frame(&[3, 1, 2]), None);
}

#[test]
fn read_buffer_starts_exhausted() {
    let b = AesReadBuffer::new([0u8; 32]);
    assert!(b.buf_exhaust());
    assert!(b.filled().is_empty());
}

#[test]
fn read_buffer_rejects_short_reads() {
    let b = AesReadBuffer::new([0u8; 32]);
    match b.take_block(&[0u8; 31]) {
        Err(Error::Protocol(ProtocolError::ONE(m))) => {
            assert_eq!(m, "AES256 cipher receive a incorrect length data :: 31")
        },
        other => panic!("unexpected {:?}", other),
    }
    assert!(b.buf_exhaust());
}

#[test]
fn read_buffer_does_not_keep_the_plaintext() {
    let key = [5u8; 32];
    let plain: Vec<u8> = (0..20u8).collect();
    let block = Codec256::new(key).encode(&plain).unwrap();
    assert_eq!(block.len(), 32);
    let b = AesReadBuffer::new(key);
    assert_eq!(b.take_block(&block), Ok(()));
    assert!(b.buf_exhaust());
    assert!(b.filled().is_empty());
}

#[test]
fn read_buffer_ignores_blocks_that_do_not_decrypt() {
    // The first block of sixteen encrypted zero bytes, twice: its plaintext
    // holds no 0x80, so it does not decrypt, and that is not reported.
    let key = [5u8; 32];
    let zeros = Codec256::new(key).encode(&[0u8; 16]).unwrap();
    let mut bad = zeros[..16].to_vec();
    bad.extend_from_slice(&zeros[..16]);
    assert_eq!(
        Codec256::new(key).decode(&bad),
        Err(CodecError::Cipher("0x80 UNPADDING ERROR: Padding byte not found".to_string()))
    );
    let b = AesReadBuffer::new(key);
    assert_eq!(b.take_block(&bad), Ok(()));
    assert!(b.filled().is_empty());
}
