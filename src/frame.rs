//! Websocket frame encoding (server side, unmasked) and decoding of short frames.
use vstd::prelude::*;
use vstd::utf8::encode_utf8;

verus! {

/// First byte of a final text frame.
pub const TEXT_FRAME: u8 = 0x81;
/// First byte of a final ping frame.
pub const PING_FRAME: u8 = 0x89;
/// First byte of a final pong frame.
pub const PONG_FRAME: u8 = 0x8a;

/// The `k` low-order bytes of `n`, most significant first.
pub open spec fn be_bytes(n: nat, k: nat) -> Seq<u8>
    decreases k,
{
    if k == 0 {
        seq![]
    } else {
        be_bytes(n / 256, (k - 1) as nat).push((n % 256) as u8)
    }
}

/// The length field of a frame whose payload has `n` bytes.
pub open spec fn length_field(n: nat) -> Seq<u8> {
    if n < 126 {
        seq![n as u8]
    } else if n < 0x10000 {
        seq![0x7eu8] + be_bytes(n, 2)
    } else {
        seq![0x7fu8] + be_bytes(n, 8)
    }
}

/// A complete unmasked frame with the given first byte and payload.
pub open spec fn frame_of(first: u8, payload: Seq<u8>) -> Seq<u8> {
    seq![first] + length_field(payload.len()) + payload
}

fn push_be_bytes(out: &mut Vec<u8>, n: u64, k: u64)
    requires
        k <= 8,
    ensures
        final(out)@ == old(out)@ + be_bytes(n as nat, k as nat),
    decreases k,
{
    if k > 0 {
        push_be_bytes(out, n / 256, k - 1);
        out.push((n % 256) as u8);
        assert(final(out)@ =~= old(out)@ + be_bytes(n as nat, k as nat));
    } else {
        assert(out@ =~= old(out)@ + be_bytes(n as nat, k as nat));
    }
}

/// Builds one unmasked frame: `first`, the length field, then the payload.
pub fn encode_frame(first: u8, payload: &[u8]) -> (r: Vec<u8>)
    ensures
        r@ == frame_of(first, payload@),
{
    let n: usize = payload.len();
    let mut bytes: Vec<u8> = Vec::new();
    bytes.push(first);
    if n < 126 {
        bytes.push(n as u8);
    } else if n < 0x10000 {
        bytes.push(0x7e);
        push_be_bytes(&mut bytes, n as u64, 2);
    } else {
        bytes.push(0x7f);
        push_be_bytes(&mut bytes, n as u64, 8);
    }
    assert(bytes@ =~= seq![first] + length_field(n as nat));
    let mut i: usize = 0;
    while i < n
        invariant
            n == payload@.len(),
            i <= n,
            bytes@ =~= seq![first] + length_field(n as nat) + payload@.subrange(0, i as int),
        decreases n - i,
    {
        bytes.push(payload[i]);
        i = i + 1;
    }
    assert(payload@.subrange(0, n as int) =~= payload@);
    bytes
}

/// Frames a text message for a websocket peer.
pub fn encode_websocket_message(message: &str) -> (r: Vec<u8>)
    ensures
        r@ == frame_of(TEXT_FRAME, encode_utf8(message@)),
{
    encode_frame(TEXT_FRAME, message.as_bytes())
}

/// Why an inbound frame was not accepted.
#[derive(Clone, Copy, Debug, PartialEq, Eq, Structural)]
pub enum FrameError {
    /// Fewer than the two header bytes.
    TooShort,
    /// The length field announces an extended length, which is not read.
    ExtendedLength,
    /// The bytes after the header do not match the announced length.
    LengthMismatch,
}

/// A decoded short frame.
pub struct DecodedFrame {
    pub opcode: u8,
    pub masked: bool,
    pub length: u8,
    /// The payload, unmasked when the frame carried a masking key.
    pub payload: Vec<u8>,
}

pub open spec fn opcode_of(f: Seq<u8>) -> u8 {
    f[0] & 0x0f
}

pub open spec fn masked_of(f: Seq<u8>) -> bool {
    f[1] & 0x80 != 0
}

pub open spec fn length_field_of(f: Seq<u8>) -> u8 {
    f[1] & 0x7f
}

/// Bytes before the payload: two, plus the masking key when there is one.
pub open spec fn header_len_of(f: Seq<u8>) -> int {
    if masked_of(f) {
        6
    } else {
        2
    }
}

/// Byte `i` of the payload, unmasked with the key when the frame is masked.
pub open spec fn payload_byte(f: Seq<u8>, i: int) -> u8 {
    if masked_of(f) {
        f[6 + i] ^ f[2 + i % 4]
    } else {
        f[2 + i]
    }
}

/// What `decode_frame` returns on `f`: `Ok` exactly for a complete short frame.
pub open spec fn decode_error(f: Seq<u8>) -> Option<FrameError> {
    if f.len() < 2 {
        Some(FrameError::TooShort)
    } else if length_field_of(f) >= 126 {
        Some(FrameError::ExtendedLength)
    } else if f.len() != header_len_of(f) + length_field_of(f) {
        Some(FrameError::LengthMismatch)
    } else {
        None
    }
}

/// Reads a short frame: opcode, mask bit, length, and the (unmasked) payload.
pub fn decode_frame(frame: &[u8]) -> (r: Result<DecodedFrame, FrameError>)
    ensures
        match r {
            Ok(d) => {
                &&& decode_error(frame@) is None
                &&& d.opcode == opcode_of(frame@)
                &&& d.masked == masked_of(frame@)
                &&& d.length == length_field_of(frame@)
                &&& d.payload@.len() == d.length
                &&& forall|i: int| 0 <= i < d.payload@.len() ==> d.payload@[i] == payload_byte(frame@, i)
            },
            Err(e) => decode_error(frame@) == Some(e),
        },
{
    if frame.len() < 2 {
        return Err(FrameError::TooShort);
    }
    let opcode: u8 = frame[0] & 0x0f;
    let masked: bool = frame[1] & 0x80 != 0;
    let length: u8 = frame[1] & 0x7f;
    if length >= 126 {
        return Err(FrameError::ExtendedLength);
    }
    let header: usize = if masked { 6 } else { 2 };
    if frame.len() != header + length as usize {
        return Err(FrameError::LengthMismatch);
    }
    let mut payload: Vec<u8> = Vec::new();
    let mut i: usize = 0;
    while i < length as usize
        invariant
            frame@.len() == header + length,
            header == header_len_of(frame@),
            masked == masked_of(frame@),
            i <= length,
            payload@.len() == i,
            forall|j: int| 0 <= j < i ==> payload@[j] == payload_byte(frame@, j),
        decreases length - i,
    {
        let b: u8 = if masked {
            frame[header + i] ^ frame[2 + i % 4]
        } else {
            frame[header + i]
        };
        payload.push(b);
        i = i + 1;
    }
    Ok(DecodedFrame { opcode, masked, length, payload })
}

/// Encoding a text payload of fewer than 126 bytes and decoding the frame gives
/// back the text opcode, no mask, the payload's length and the payload itself.
pub proof fn lemma_short_text_round_trip(payload: Seq<u8>)
    requires
        payload.len() < 126,
    ensures
        ({
            let f = frame_of(TEXT_FRAME, payload);
            &&& decode_error(f) is None
            &&& opcode_of(f) == 1
            &&& !masked_of(f)
            &&& length_field_of(f) == payload.len()
            &&& forall|i: int| 0 <= i < payload.len() ==> payload_byte(f, i) == payload[i]
        }),
{
    let f = frame_of(TEXT_FRAME, payload);
    let n = payload.len() as u8;
    assert(f[0] == 0x81u8);
    assert(f[1] == n);
    assert(0x81u8 & 0x0f == 1) by (bit_vector);
    assert(n < 126 ==> n & 0x80 == 0 && n & 0x7f == n) by (bit_vector);
    assert forall|i: int| 0 <= i < payload.len() implies payload_byte(f, i) == payload[i] by {
        assert(f[2 + i] == payload[i]);
    }
}

} // verus!
