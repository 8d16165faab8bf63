//! Length-prefixed framing of serialised messages.
//!
//! Two layouts are used on the wire:
//! * the stream layout: a 4-byte **big-endian** length, then the body;
//!   bodies larger than [`MAX_MESSAGE_SIZE`] are refused on both sides;
//! * the packet layout: a 4-byte **little-endian** length, then the body.

use vstd::prelude::*;

verus! {

/// Hard limit on one serialised message body (10 MiB).
pub const MAX_MESSAGE_SIZE: usize = 10 * 1024 * 1024;

/// Big-endian bytes of `n`.
pub open spec fn be_bytes(n: u32) -> Seq<u8> {
    seq![
        (n / 0x100_0000) as u8,
        ((n / 0x1_0000) % 0x100) as u8,
        ((n / 0x100) % 0x100) as u8,
        (n % 0x100) as u8,
    ]
}

/// Little-endian bytes of `n`.
pub open spec fn le_bytes(n: u32) -> Seq<u8> {
    be_bytes(n).reverse()
}

/// The number whose big-endian bytes are `b[0..4]`.
pub open spec fn be_value(b: Seq<u8>) -> nat {
    (b[0] as nat) * 0x100_0000 + (b[1] as nat) * 0x1_0000 + (b[2] as nat) * 0x100 + (b[3] as nat)
}

/// The number whose little-endian bytes are `b[0..4]`.
pub open spec fn le_value(b: Seq<u8>) -> nat {
    (b[3] as nat) * 0x100_0000 + (b[2] as nat) * 0x1_0000 + (b[1] as nat) * 0x100 + (b[0] as nat)
}

/// Reading back the bytes of a number gives the number.
pub proof fn lemma_be_roundtrip(n: u32)
    ensures
        be_value(be_bytes(n)) == n,
        be_bytes(n).len() == 4,
        le_value(le_bytes(n)) == n,
        le_bytes(n).len() == 4,
{
    let b = be_bytes(n);
    assert(b[0] == (n / 0x100_0000) as u8);
    let x = n as int;
    assert(x == (x / 0x100_0000) * 0x100_0000 + ((x / 0x1_0000) % 0x100) * 0x1_0000 + ((x / 0x100)
        % 0x100) * 0x100 + x % 0x100) by (nonlinear_arith)
        requires
            0 <= x < 0x1_0000_0000,
    ;
    assert(0 <= x / 0x100_0000 < 0x100) by (nonlinear_arith)
        requires
            0 <= x < 0x1_0000_0000,
    ;
    let l = le_bytes(n);
    assert(l[0] == b[3] && l[1] == b[2] && l[2] == b[1] && l[3] == b[0]);
}

/// The big-endian bytes of `n`.
fn u32_be(n: u32) -> (r: [u8; 4])
    ensures
        r@ == be_bytes(n),
{
    let r = [(n / 0x100_0000) as u8, ((n / 0x1_0000) % 0x100) as u8, ((n / 0x100) % 0x100) as u8, (
    n % 0x100) as u8];
    assert(r@ =~= be_bytes(n));
    r
}

/// The value of the four bytes `b[at..at + 4]`, big-endian.
fn read_u32_be(b: &[u8], at: usize) -> (r: u32)
    requires
        at + 4 <= b@.len(),
    ensures
        r as nat == be_value(b@.subrange(at as int, at + 4)),
{
    let b0 = b[at] as u32;
    let b1 = b[at + 1] as u32;
    let b2 = b[at + 2] as u32;
    let b3 = b[at + 3] as u32;
    assert(b0 < 256 && b1 < 256 && b2 < 256 && b3 < 256);
    b0 * 0x100_0000 + b1 * 0x1_0000 + b2 * 0x100 + b3
}

/// The value of the four bytes `b[at..at + 4]`, little-endian.
fn read_u32_le(b: &[u8], at: usize) -> (r: u32)
    requires
        at + 4 <= b@.len(),
    ensures
        r as nat == le_value(b@.subrange(at as int, at + 4)),
{
    let b0 = b[at] as u32;
    let b1 = b[at + 1] as u32;
    let b2 = b[at + 2] as u32;
    let b3 = b[at + 3] as u32;
    assert(b0 < 256 && b1 < 256 && b2 < 256 && b3 < 256);
    b3 * 0x100_0000 + b2 * 0x1_0000 + b1 * 0x100 + b0
}

/// Why a frame was refused.
#[derive(Debug, Clone, Copy, PartialEq, Eq)]
pub enum FrameError {
    /// The body is larger than [`MAX_MESSAGE_SIZE`]; holds its length.
    TooLarge(usize),
}

/// The stream frame of `body`: big-endian length, then the body.
pub open spec fn stream_frame(body: Seq<u8>) -> Seq<u8> {
    be_bytes(body.len() as u32) + body
}

/// Frames `body` for the stream: refused exactly when the body is larger
/// than [`MAX_MESSAGE_SIZE`].
pub fn encode_stream_frame(body: &[u8]) -> (r: Result<Vec<u8>, FrameError>)
    ensures
        body@.len() > MAX_MESSAGE_SIZE ==> r == Err::<Vec<u8>, FrameError>(
            FrameError::TooLarge(body@.len() as usize),
        ),
        body@.len() <= MAX_MESSAGE_SIZE ==> (r matches Ok(v) && v@ == stream_frame(body@)),
{
    let n = body.len();
    if n > MAX_MESSAGE_SIZE {
        return Err(FrameError::TooLarge(n));
    }
    let hdr = u32_be(n as u32);
    let mut out: Vec<u8> = Vec::new();
    out.extend_from_slice(&hdr);
    out.extend_from_slice(body);
    Ok(out)
}

/// Reads the 4-byte header of a stream frame: the length of the body
/// that follows, or an error when that length is above the limit.
pub fn check_stream_header(header: &[u8]) -> (r: Result<usize, FrameError>)
    requires
        header@.len() == 4,
    ensures
        be_value(header@) <= MAX_MESSAGE_SIZE ==> r == Ok::<usize, FrameError>(
            be_value(header@) as usize,
        ),
        be_value(header@) > MAX_MESSAGE_SIZE ==> r == Err::<usize, FrameError>(
            FrameError::TooLarge(be_value(header@) as usize),
        ),
{
    let len = read_u32_be(header, 0);
    assert(header@.subrange(0, 4) =~= header@);
    if len as u64 > MAX_MESSAGE_SIZE as u64 {
        Err(FrameError::TooLarge(len as usize))
    } else {
        Ok(len as usize)
    }
}

/// Result of looking for one whole frame at the front of a buffer.
#[derive(Debug, PartialEq, Eq)]
pub enum Decoded {
    /// More bytes are needed.
    Incomplete,
    /// A whole frame: its body and the number of bytes it takes.
    Frame { body: Vec<u8>, consumed: usize },
}

/// Looks for one whole stream frame at the front of `buf`.
pub fn decode_stream_frame(buf: &[u8]) -> (r: Result<Decoded, FrameError>)
    ensures
        buf@.len() < 4 ==> r == Ok::<Decoded, FrameError>(Decoded::Incomplete),
        buf@.len() >= 4 ==> {
            let len = be_value(buf@.subrange(0, 4));
            &&& len > MAX_MESSAGE_SIZE ==> r == Err::<Decoded, FrameError>(
                FrameError::TooLarge(len as usize),
            )
            &&& len <= MAX_MESSAGE_SIZE && buf@.len() < 4 + len ==> r == Ok::<Decoded, FrameError>(
                Decoded::Incomplete,
            )
            &&& len <= MAX_MESSAGE_SIZE && buf@.len() >= 4 + len ==> (r matches Ok(
                Decoded::Frame { body, consumed },
            ) && consumed == 4 + len && body@ == buf@.subrange(4, 4 + len as int))
        },
{
    if buf.len() < 4 {
        return Ok(Decoded::Incomplete);
    }
    let len = read_u32_be(buf, 0);
    if len as u64 > MAX_MESSAGE_SIZE as u64 {
        return Err(FrameError::TooLarge(len as usize));
    }
    let len = len as usize;
    if buf.len() - 4 < len {
        return Ok(Decoded::Incomplete);
    }
    let body = copy_range(buf, 4, 4 + len);
    Ok(Decoded::Frame { body, consumed: 4 + len })
}

/// A copy of `b[from..to]`.
pub fn copy_range(b: &[u8], from: usize, to: usize) -> (r: Vec<u8>)
    requires
        from <= to <= b@.len(),
    ensures
        r@ == b@.subrange(from as int, to as int),
{
    let mut r: Vec<u8> = Vec::new();
    let mut i = from;
    while i < to
        invariant
            from <= i <= to <= b@.len(),
            r@ == b@.subrange(from as int, i as int),
        decreases to - i,
    {
        r.push(b[i]);
        i = i + 1;
    }
    r
}

/// The packet frame of `body`: little-endian length (taken as a `u32`, so
/// only its low 32 bits), then the body.
pub open spec fn packet_frame(body: Seq<u8>) -> Seq<u8> {
    le_bytes(body.len() as u32) + body
}

/// Frames `body` as a packet.
pub fn encode_packet_frame(body: &[u8]) -> (r: Vec<u8>)
    ensures
        r@ == packet_frame(body@),
{
    let be = u32_be(body.len() as u32);
    let hdr = [be[3], be[2], be[1], be[0]];
    assert(hdr@ =~= le_bytes(body.len() as u32));
    let mut out: Vec<u8> = Vec::new();
    out.extend_from_slice(&hdr);
    out.extend_from_slice(body);
    out
}

/// Looks for one whole packet frame at the front of `buf`: `None` while
/// the header or the body is incomplete.
pub fn decode_packet_frame(buf: &[u8]) -> (r: Option<(Vec<u8>, usize)>)
    ensures
        buf@.len() < 4 ==> r is None,
        buf@.len() >= 4 ==> {
            let len = le_value(buf@.subrange(0, 4));
            &&& buf@.len() < 4 + len ==> r is None
            &&& buf@.len() >= 4 + len ==> (r matches Some((body, consumed)) && consumed == 4 + len
                && body@ == buf@.subrange(4, 4 + len as int))
        },
{
    if buf.len() < 4 {
        return None;
    }
    let len = read_u32_le(buf, 0) as usize;
    if buf.len() - 4 < len {
        return None;
    }
    let body = copy_range(buf, 4, 4 + len);
    Some((body, 4 + len))
}

/// A framed body is read back whole, whatever bytes follow it.
pub proof fn lemma_stream_frame_roundtrip(body: Seq<u8>, rest: Seq<u8>)
    requires
        body.len() <= MAX_MESSAGE_SIZE,
    ensures
        ({
            let buf = stream_frame(body) + rest;
            &&& buf.len() >= 4
            &&& be_value(buf.subrange(0, 4)) == body.len()
            &&& buf.subrange(4, 4 + body.len() as int) == body
        }),
{
    let n = body.len() as u32;
    lemma_be_roundtrip(n);
    let buf = stream_frame(body) + rest;
    assert(buf.subrange(0, 4) =~= be_bytes(n));
    assert(buf.subrange(4, 4 + body.len() as int) =~= body);
}

/// A packet-framed body is read back whole, whatever bytes follow it.
pub proof fn lemma_packet_frame_roundtrip(body: Seq<u8>, rest: Seq<u8>)
    requires
        body.len() <= u32::MAX,
    ensures
        ({
            let buf = packet_frame(body) + rest;
            &&& buf.len() >= 4
            &&& le_value(buf.subrange(0, 4)) == body.len()
            &&& buf.subrange(4, 4 + body.len() as int) == body
        }),
{
    let n = body.len() as u32;
    lemma_be_roundtrip(n);
    let buf = packet_frame(body) + rest;
    assert(buf.subrange(0, 4) =~= le_bytes(n));
    assert(buf.subrange(4, 4 + body.len() as int) =~= body);
}

} // verus!
