use vstd::prelude::*;
use vstd::slice::slice_subrange;
use vstd::slice::slice_to_vec;

use crate::error::{one_error, result_model, Error, ErrorModel, ProtocolError};
use crate::protocol::aes::Codec256;
use crate::text::{decimal, message_with_number};

verus! {

/// The four big-endian bytes of `x`.
pub open spec fn be32_bytes(x: u32) -> Seq<u8> {
    seq![
        (x / 0x100_0000) as u8,
        ((x / 0x1_0000) % 0x100) as u8,
        ((x / 0x100) % 0x100) as u8,
        (x % 0x100) as u8,
    ]
}

/// The number whose big-endian bytes are `b0 b1 b2 b3`.
pub open spec fn be32_value(b0: u8, b1: u8, b2: u8, b3: u8) -> u32 {
    (b0 * 0x100_0000 + b1 * 0x1_0000 + b2 * 0x100 + b3) as u32
}

/// The frame the encrypted stream sends for `msg`: the length of `msg`
/// as a big-endian `u32` (reduced modulo 2^32, as `as u32` does), then `msg`.
pub open spec fn spec_msg_frame(msg: Seq<u8>) -> Seq<u8> {
    be32_bytes((msg.len() % 0x1_0000_0000) as u32) + msg
}

/// The message frame that starts `s`: `None` while it is incomplete, else
/// its payload and the number of bytes the frame takes.
pub open spec fn spec_parse_msg_frame(s: Seq<u8>) -> Option<(Seq<u8>, nat)> {
    if s.len() < 4 {
        None
    } else {
        let end = 4 + be32_value(s[0], s[1], s[2], s[3]);
        if s.len() < end {
            None
        } else {
            Some((s.subrange(4, end), end as nat))
        }
    }
}

/// Builds the frame that carries `msg` on the encrypted stream.
pub fn msg_frame(msg: &[u8]) -> (r: Vec<u8>)
    ensures
        r@ == spec_msg_frame(msg@),
        r@.len() == msg@.len() + 4,
        r@[0] as int * 0x100_0000 + r@[1] as int * 0x1_0000 + r@[2] as int * 0x100 + r@[3] as int
            == msg@.len() % 0x1_0000_0000,
        r@.subrange(4, r@.len() as int) == msg@,
{
    let len: u32 = (msg.len() as u64 % 0x1_0000_0000u64) as u32;
    let mut r: Vec<u8> = Vec::with_capacity(4);
    r.push((len / 0x100_0000) as u8);
    r.push(((len / 0x1_0000) % 0x100) as u8);
    r.push(((len / 0x100) % 0x100) as u8);
    r.push((len % 0x100) as u8);
    let ghost header = r@;
    let mut i: usize = 0;
    while i < msg.len()
        invariant
            i <= msg.len(),
            header == be32_bytes(len),
            r@ == header + msg@.subrange(0, i as int),
        decreases msg.len() - i,
    {
        r.push(msg[i]);
        i = i + 1;
        assert(r@ =~= header + msg@.subrange(0, i as int));
    }
    assert(msg@.subrange(0, msg.len() as int) =~= msg@);
    proof {
        lemma_msg_frame_layout(msg@);
    }
    r
}

/// The length announced by a frame header.
pub fn msg_frame_len(header: &[u8; 4]) -> (n: u32)
    ensures
        n == be32_value(header@[0], header@[1], header@[2], header@[3]),
        n as int == header@[0] as int * 0x100_0000 + header@[1] as int * 0x1_0000 + header@[2] as int
            * 0x100 + header@[3] as int,
{
    (header[0] as u32) * 0x100_0000 + (header[1] as u32) * 0x1_0000 + (header[2] as u32) * 0x100
        + header[3] as u32
}

/// Reads the message frame that starts `buf`; `None` while more bytes are
/// needed.
pub fn parse_msg_frame(buf: &[u8]) -> (r: Option<(Vec<u8>, usize)>)
    ensures
        r matches Some((p, n)) ==> spec_parse_msg_frame(buf@) == Some((p@, n as nat)),
        r is None ==> spec_parse_msg_frame(buf@) is None,
        r is Some <==> (buf@.len() >= 4 && buf@.len() >= 4 + (buf@[0] as int * 0x100_0000 + buf@[1] as int
            * 0x1_0000 + buf@[2] as int * 0x100 + buf@[3] as int)),
        r matches Some((p, n)) ==> n == 4 + (buf@[0] as int * 0x100_0000 + buf@[1] as int * 0x1_0000
            + buf@[2] as int * 0x100 + buf@[3] as int) && p@ == buf@.subrange(4, n as int),
{
    proof {
        lemma_parse_msg_frame_length(buf@);
    }
    if buf.len() < 4 {
        return None;
    }
    let header: [u8; 4] = [buf[0], buf[1], buf[2], buf[3]];
    let len = msg_frame_len(&header);
    if buf.len() - 4 < len as usize {
        return None;
    }
    let end: usize = 4 + len as usize;
    Some((slice_to_vec(slice_subrange(buf, 4, end)), end))
}

/// The ONE frame that starts `s`: a one-byte length, then that many bytes.
/// `None` while it is incomplete, else its payload and its size.
pub open spec fn spec_parse_one_frame(s: Seq<u8>) -> Option<(Seq<u8>, nat)> {
    if s.len() < 1 || s.len() < 1 + s[0] {
        None
    } else {
        Some((s.subrange(1, 1 + s[0]), (1 + s[0]) as nat))
    }
}

/// Reads the ONE frame that starts `buf`; `None` while more bytes are
/// needed.
pub fn parse_one_frame(buf: &[u8]) -> (r: Option<(Vec<u8>, usize)>)
    ensures
        r matches Some((p, n)) ==> spec_parse_one_frame(buf@) == Some((p@, n as nat)),
        r is None ==> spec_parse_one_frame(buf@) is None,
        r is Some <==> (buf@.len() >= 1 && buf@.len() >= 1 + buf@[0]),
        r matches Some((p, n)) ==> n == 1 + buf@[0] && p@.len() == buf@[0] && p@ == buf@.subrange(
            1,
            n as int,
        ),
{
    proof {
        lemma_one_frame_needs_whole_payload(buf@);
    }
    if buf.len() < 1 {
        return None;
    }
    let end: usize = 1 + buf[0] as usize;
    if buf.len() < end {
        return None;
    }
    Some((slice_to_vec(slice_subrange(buf, 1, end)), end))
}

/// What a frame carrying `msg` (under 2^32 bytes) reads back as: the
/// frame is read whole and gives `msg` back, whatever follows it.
pub proof fn lemma_msg_frame_round_trip(msg: Seq<u8>, rest: Seq<u8>)
    requires
        msg.len() < 0x1_0000_0000,
    ensures
        spec_parse_msg_frame(spec_msg_frame(msg) + rest) == Some((msg, 4 + msg.len())),
{
    let x = msg.len() as u32;
    let s = spec_msg_frame(msg) + rest;
    assert(msg.len() % 0x1_0000_0000 == msg.len());
    assert(be32_value(
        (x / 0x100_0000) as u8,
        ((x / 0x1_0000) % 0x100) as u8,
        ((x / 0x100) % 0x100) as u8,
        (x % 0x100) as u8,
    ) == x) by (nonlinear_arith);
    assert(s[0] == (x / 0x100_0000) as u8);
    assert(s[1] == ((x / 0x1_0000) % 0x100) as u8);
    assert(s[2] == ((x / 0x100) % 0x100) as u8);
    assert(s[3] == (x % 0x100) as u8);
    assert(s.subrange(4, 4 + msg.len() as int) =~= msg);
}

/// What a ONE frame carrying `payload` (at most 255 bytes) reads back as:
/// the frame is read whole and gives `payload` back.
pub proof fn lemma_one_frame_round_trip(payload: Seq<u8>, rest: Seq<u8>)
    requires
        payload.len() <= 255,
    ensures
        spec_parse_one_frame(seq![payload.len() as u8] + payload + rest) == Some(
            (payload, 1 + payload.len()),
        ),
{
    let s = seq![payload.len() as u8] + payload + rest;
    assert(s[0] == payload.len() as u8);
    assert(s.subrange(1, 1 + payload.len() as int) =~= payload);
}

/// The read side of the AES-256 stream layer: its cipher, the bytes it
/// holds, and how many of them have been consumed.
pub struct AesReadBuffer {
    cipher: Codec256,
    buf: Vec<u8>,
    pos: usize,
}

impl AesReadBuffer {
    #[verifier::type_invariant]
    closed spec fn inv(&self) -> bool {
        self.pos <= self.buf.len()
    }

    /// The key the blocks are decrypted with.
    pub closed spec fn key(&self) -> Seq<u8> {
        self.cipher.key()
    }

    /// The bytes the buffer holds.
    pub closed spec fn data(&self) -> Seq<u8> {
        self.buf@
    }

    /// How many bytes of `data` have been consumed.
    pub closed spec fn pos(&self) -> nat {
        self.pos as nat
    }

    /// A buffer for `key`, holding nothing yet.
    pub fn new(key: [u8; 32]) -> (b: Self)
        ensures
            b.key() == key@,
            b.data() == Seq::<u8>::empty(),
            b.pos() == 0,
    {
        AesReadBuffer { cipher: Codec256::new(key), buf: Vec::with_capacity(1024), pos: 0 }
    }

    /// Whether everything received has been consumed.
    pub fn buf_exhaust(&self) -> (r: bool)
        ensures
            r == (self.pos() >= self.data().len()),
    {
        self.pos >= self.buf.len()
    }

    /// The bytes the buffer holds, all of them: what has been consumed is
    /// not left out.
    pub fn filled(&self) -> (r: &[u8])
        ensures
            r@ == self.data(),
    {
        self.buf.as_slice()
    }

    /// Takes in what one read of at most 32 bytes gave, once the buffer is
    /// exhausted. A read of any other size than 32 bytes fails with a ONE
    /// protocol error. A full block is decrypted, but the plaintext is not
    /// kept and a failed decryption is not reported: the buffer is never
    /// changed.
    pub fn take_block(&self, block: &[u8]) -> (r: Result<(), Error>)
        ensures
            block@.len() != 32 ==> result_model(r) == Err::<(), ErrorModel>(
                one_error("AES256 cipher receive a incorrect length data :: "@ + decimal(block@.len())),
            ),
            block@.len() == 32 ==> r is Ok,
    {
        if block.len() != 32 {
            let msg = message_with_number("AES256 cipher receive a incorrect length data :: ", block.len() as u64);
            return Err(Error::Protocol(ProtocolError::ONE(msg)));
        }
        let _ = self.cipher.decode(block);
        Ok(())
    }
}

/// The frame of `msg` is four header bytes and then `msg` itself, and the
/// header, read as a big-endian number, is the length of `msg` modulo 2^32.
pub proof fn lemma_msg_frame_layout(msg: Seq<u8>)
    ensures
        ({
            let f = spec_msg_frame(msg);
            &&& f.len() == msg.len() + 4
            &&& f[0] as int * 0x100_0000 + f[1] as int * 0x1_0000 + f[2] as int * 0x100 + f[3] as int
                == msg.len() % 0x1_0000_0000
            &&& f.subrange(4, f.len() as int) == msg
        }),
{
    let f = spec_msg_frame(msg);
    let x = (msg.len() % 0x1_0000_0000) as u32;
    assert(x == msg.len() % 0x1_0000_0000);
    assert(((x / 0x100_0000) as u8) as int * 0x100_0000 + (((x / 0x1_0000) % 0x100) as u8) as int * 0x1_0000
        + (((x / 0x100) % 0x100) as u8) as int * 0x100 + ((x % 0x100) as u8) as int == x) by (nonlinear_arith);
    assert(f.subrange(4, f.len() as int) =~= msg);
}

/// A message frame is complete exactly when four header bytes and then as
/// many bytes as the header says, read as a big-endian number, have
/// arrived; it then takes those bytes, and its payload is what follows the
/// header.
pub proof fn lemma_parse_msg_frame_length(s: Seq<u8>)
    ensures
        spec_parse_msg_frame(s) is Some <==> (s.len() >= 4 && s.len() >= 4 + (s[0] as int * 0x100_0000
            + s[1] as int * 0x1_0000 + s[2] as int * 0x100 + s[3] as int)),
        spec_parse_msg_frame(s) matches Some((p, n)) ==> n == 4 + (s[0] as int * 0x100_0000 + s[1] as int
            * 0x1_0000 + s[2] as int * 0x100 + s[3] as int) && p == s.subrange(4, n as int),
{
    if s.len() >= 4 {
        let v = s[0] as int * 0x100_0000 + s[1] as int * 0x1_0000 + s[2] as int * 0x100 + s[3] as int;
        assert(0 <= v < 0x1_0000_0000);
        assert(be32_value(s[0], s[1], s[2], s[3]) == v);
    }
}

/// A ONE frame is complete exactly when its length byte and that many
/// bytes after it have arrived; it then takes those bytes, and its payload
/// is exactly as long as the length byte says.
pub proof fn lemma_one_frame_needs_whole_payload(s: Seq<u8>)
    ensures
        spec_parse_one_frame(s) is Some <==> (s.len() >= 1 && s.len() >= 1 + s[0]),
        spec_parse_one_frame(s) matches Some((p, n)) ==> n == 1 + s[0] && p.len() == s[0] && p == s.subrange(
            1,
            n as int,
        ),
{
}

} // verus!
