use vstd::prelude::*;

verus! {

/// `serde_json::Value`, carried opaquely in responses.
#[verifier::external_type_specification]
#[verifier::external_body]
pub struct ExJsonValue(serde_json::Value);

/// Response to a command request.
#[derive(Debug)]
pub enum IpcResponse {
    /// The command succeeded (`Ok` on the wire).
    Success,
    OkWith(serde_json::Value),
    Error { code: u32, message: String },
}

impl IpcResponse {
    /// An error response with code 1 and the given message.
    pub fn error(message: String) -> (r: IpcResponse)
        ensures
            r matches IpcResponse::Error { code, message: m } && code == 1 && m == message,
    {
        IpcResponse::Error { code: 1, message }
    }
}

/// The four big-endian bytes of `n`.
pub open spec fn be_bytes(n: u32) -> Seq<u8> {
    seq![(n >> 24u32) as u8, (n >> 16u32) as u8, (n >> 8u32) as u8, n as u8]
}

/// The number four big-endian bytes spell.
pub open spec fn from_be(b0: u8, b1: u8, b2: u8, b3: u8) -> u32 {
    ((b0 as u32) << 24u32) | ((b1 as u32) << 16u32) | ((b2 as u32) << 8u32) | (b3 as u32)
}

/// A frame: the payload length as four big-endian bytes (truncated to 32
/// bits, as `len as u32` does), then the payload.
pub open spec fn frame_of(payload: Seq<u8>) -> Seq<u8> {
    be_bytes(payload.len() as u32) + payload
}

/// What the first frame in `buf` holds: `None` while the header or the payload
/// is incomplete, else the payload and the number of bytes the frame takes.
pub open spec fn first_frame(buf: Seq<u8>) -> Option<(Seq<u8>, int)> {
    if buf.len() < 4 {
        None
    } else {
        let n = from_be(buf[0], buf[1], buf[2], buf[3]) as int;
        if buf.len() - 4 < n {
            None
        } else {
            Some((buf.subrange(4, 4 + n), 4 + n))
        }
    }
}

/// Encode a payload as a length-prefixed frame (what `send_message` writes).
pub fn encode_frame(payload: &[u8]) -> (r: Vec<u8>)
    ensures
        r@ == frame_of(payload@),
{
    #[verifier::truncate]
    let len = payload.len() as u32;
    let mut r: Vec<u8> = Vec::new();
    r.push((len >> 24u32) as u8);
    r.push((len >> 16u32) as u8);
    r.push((len >> 8u32) as u8);
    r.push(len as u8);
    let n = payload.len();
    let ghost header = r@;
    for i in 0..n
        invariant
            n == payload@.len(),
            r@ == header + payload@.take(i as int),
    {
        r.push(payload[i]);
        assert(r@ =~= header + payload@.take(i + 1));
    }
    assert(payload@.take(n as int) =~= payload@);
    assert(header =~= be_bytes(len));
    r
}

/// The payload length a frame header announces (`u32::from_be_bytes`).
pub fn frame_len(header: [u8; 4]) -> (n: u32)
    ensures
        n == from_be(header@[0], header@[1], header@[2], header@[3]),
{
    ((header[0] as u32) << 24u32) | ((header[1] as u32) << 16u32) | ((header[2] as u32) << 8u32)
        | (header[3] as u32)
}

/// Split the first complete frame off `buf` (what `recv_message` reads): its
/// payload and the bytes it takes, or `None` while it is incomplete.
pub fn decode_frame(buf: &[u8]) -> (r: Option<(Vec<u8>, usize)>)
    ensures
        match r {
            Some((p, used)) => first_frame(buf@) == Some((p@, used as int)),
            None => first_frame(buf@) is None,
        },
{
    if buf.len() < 4 {
        return None;
    }
    let n = frame_len([buf[0], buf[1], buf[2], buf[3]]) as usize;
    if buf.len() - 4 < n {
        return None;
    }
    let mut p: Vec<u8> = Vec::new();
    let bl = buf.len();
    for i in 0..n
        invariant
            bl == buf@.len(),
            4 + n <= bl,
            p@ == buf@.subrange(4, 4 + i),
    {
        p.push(buf[4 + i]);
        assert(p@ =~= buf@.subrange(4, 4 + i + 1));
    }
    Some((p, 4 + n))
}

proof fn lemma_be_round_trip(n: u32)
    ensures
        from_be((n >> 24u32) as u8, (n >> 16u32) as u8, (n >> 8u32) as u8, n as u8) == n,
{
    assert((((((n >> 24u32) as u8) as u32) << 24u32) | ((((n >> 16u32) as u8) as u32) << 16u32)
        | ((((n >> 8u32) as u8) as u32) << 8u32) | ((n as u8) as u32)) == n) by (bit_vector);
}

/// Framing round trip: reading a frame back from the bytes written for a payload
/// that fits the 32-bit length field, followed by anything, gives back that
/// payload and exactly the frame's length.
pub proof fn lemma_frame_round_trip(payload: Seq<u8>, rest: Seq<u8>)
    requires
        payload.len() <= u32::MAX,
    ensures
        first_frame(frame_of(payload) + rest) == Some((payload, 4 + payload.len() as int)),
{
    let n = payload.len() as u32;
    lemma_be_round_trip(n);
    let buf = frame_of(payload) + rest;
    assert(buf[0] == (n >> 24u32) as u8);
    assert(buf[1] == (n >> 16u32) as u8);
    assert(buf[2] == (n >> 8u32) as u8);
    assert(buf[3] == n as u8);
    assert(buf.subrange(4, 4 + payload.len() as int) =~= payload);
}

} // verus!
