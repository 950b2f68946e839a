//! IPC framing: each message is a 4-byte little-endian length prefix
//! followed by that many payload bytes (JSON, written and read by the
//! program around this library).

use vstd::prelude::*;

verus! {

/// Why a frame could not be decoded.
#[derive(Debug, Clone, Copy, PartialEq, Eq, Structural)]
pub enum FrameError {
    /// Fewer than 4 bytes: no complete length prefix.
    TooShort,
    /// The length prefix asks for more bytes than the frame holds.
    Truncated { expected: usize, actual: usize },
}

/// The little-endian bytes of `n`.
pub open spec fn le_bytes(n: u32) -> Seq<u8> {
    seq![
        (n % 256) as u8,
        ((n / 256) % 256) as u8,
        ((n / 65536) % 256) as u8,
        (n / 16777216) as u8,
    ]
}

/// The number whose little-endian bytes are `b[0..4]`.
pub open spec fn le_value(b: Seq<u8>) -> int {
    b[0] + 256 * b[1] + 65536 * b[2] + 16777216 * b[3]
}

/// The frame for `payload`: its length (truncated to 32 bits) in
/// little-endian, then the payload.
pub open spec fn frame_of(payload: Seq<u8>) -> Seq<u8> {
    le_bytes((payload.len() % 0x1_0000_0000) as u32) + payload
}

/// What decoding `frame` gives.
pub open spec fn decoded(frame: Seq<u8>) -> Result<Seq<u8>, FrameError> {
    if frame.len() < 4 {
        Err(FrameError::TooShort)
    } else {
        let len = le_value(frame);
        if frame.len() - 4 < len {
            Err(FrameError::Truncated { expected: len as usize, actual: (frame.len() - 4) as usize })
        } else {
            Ok(frame.subrange(4, 4 + len))
        }
    }
}

proof fn lemma_le_roundtrip(n: u32)
    ensures
        le_value(le_bytes(n)) == n,
        0 <= le_value(le_bytes(n)) <= u32::MAX,
{
    let b = le_bytes(n);
    let n0 = n % 256;
    let n1 = (n / 256) % 256;
    let n2 = (n / 65536) % 256;
    let n3 = n / 16777216;
    assert(n == n0 + 256 * n1 + 65536 * n2 + 16777216 * n3) by (nonlinear_arith)
        requires
            n0 == n % 256,
            n1 == (n / 256) % 256,
            n2 == (n / 65536) % 256,
            n3 == n / 16777216,
            0 <= n <= 0xffff_ffff;
    assert(n3 < 256);
}

/// Frame a payload for the IPC socket.
pub fn encode_frame(payload: &[u8]) -> (frame: Vec<u8>)
    ensures
        frame@ == frame_of(payload@),
{
    let len: u32 = (payload.len() as u64 % 0x1_0000_0000) as u32;
    let mut frame: Vec<u8> = Vec::new();
    frame.push((len % 256) as u8);
    frame.push(((len / 256) % 256) as u8);
    frame.push(((len / 65536) % 256) as u8);
    frame.push((len / 16777216) as u8);
    let mut i: usize = 0;
    while i < payload.len()
        invariant
            i <= payload@.len(),
            frame@ == le_bytes(len) + payload@.take(i as int),
        decreases payload.len() - i,
    {
        frame.push(payload[i]);
        i = i + 1;
        proof {
            assert(le_bytes(len) + payload@.take(i as int) =~= (le_bytes(len) + payload@.take(i - 1)).push(payload@[i - 1]));
        }
    }
    proof {
        assert(payload@.take(payload@.len() as int) =~= payload@);
        assert(len == (payload@.len() % 0x1_0000_0000) as u32);
    }
    frame
}

/// The payload length announced by a 4-byte little-endian prefix.
pub fn payload_len(prefix: &[u8]) -> (n: usize)
    requires
        prefix@.len() == 4,
    ensures
        n == le_value(prefix@),
{
    let v: u64 = prefix[0] as u64 + 256 * (prefix[1] as u64) + 65536 * (prefix[2] as u64) + 16777216 * (prefix[3] as u64);
    assert(v <= u32::MAX);
    v as usize
}

/// Decode a frame produced by [`encode_frame`]: the payload its prefix
/// announces (bytes after it are ignored). Never panics.
pub fn decode_frame(frame: &[u8]) -> (r: Result<Vec<u8>, FrameError>)
    ensures
        match (r, decoded(frame@)) {
            (Ok(p), Ok(q)) => p@ == q,
            (Err(e), Err(f)) => e == f,
            _ => false,
        },
{
    if frame.len() < 4 {
        return Err(FrameError::TooShort);
    }
    let v: u64 = frame[0] as u64 + 256 * (frame[1] as u64) + 65536 * (frame[2] as u64) + 16777216 * (frame[3] as u64);
    let len = v as usize;
    let available = frame.len() - 4;
    if available < len {
        return Err(FrameError::Truncated { expected: len, actual: available });
    }
    let mut payload: Vec<u8> = Vec::new();
    let mut i: usize = 0;
    while i < len
        invariant
            i <= len,
            len <= frame@.len() - 4,
            4 <= frame@.len(),
            payload@ == frame@.subrange(4, 4 + i),
            available == frame.len() - 4,
            len <= available,
        decreases len - i,
    {
        payload.push(frame[4 + i]);
        i = i + 1;
        proof {
            assert(frame@.subrange(4, 4 + i) =~= frame@.subrange(4, 4 + i - 1).push(frame@[4 + i - 1]));
        }
    }
    Ok(payload)
}

/// Decoding an encoded frame gives the payload back (for payloads whose
/// length fits the 32-bit prefix).
pub proof fn law_frame_roundtrip(payload: Seq<u8>)
    requires
        payload.len() <= u32::MAX,
    ensures
        decoded(frame_of(payload)) == Ok::<Seq<u8>, FrameError>(payload),
{
    let n = (payload.len() % 0x1_0000_0000) as u32;
    assert(n == payload.len());
    lemma_le_roundtrip(n);
    let f = frame_of(payload);
    assert(f.subrange(0, 4) =~= le_bytes(n));
    assert(le_value(f) == le_value(le_bytes(n)));
    assert(f.subrange(4, 4 + payload.len() as int) =~= payload);
}

/// Bytes after a complete frame do not change what it decodes to.
pub proof fn law_frame_ignores_trailing(frame: Seq<u8>, extra: Seq<u8>)
    requires
        decoded(frame) is Ok,
    ensures
        decoded(frame + extra) == decoded(frame),
{
    let g = frame + extra;
    assert(le_value(g) == le_value(frame));
    let len = le_value(frame);
    assert(g.subrange(4, 4 + len) =~= frame.subrange(4, 4 + len));
}

} // verus!
