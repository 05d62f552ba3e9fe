//! Message types and the wire framing shared by the bridge and the widget.
//!
//! Each message is a 4-byte big-endian length followed by that many bytes of
//! JSON. The JSON itself is produced and parsed outside this crate; here the
//! frame is built and checked byte by byte.

use vstd::prelude::*;
use vstd::string::*;
use crate::text::{decimal, decimal_text};

verus! {

/// Commands sent from the MCP bridge to the widget.
#[derive(Debug, Clone, PartialEq)]
pub enum Command {
    /// Show this text.
    SetKaomoji { text: String },
    /// Show the image file at this path.
    SetImage { path: String },
    /// Play these frames (not supported by the widget yet).
    SetAnimation { frames: Vec<Frame>, fps: u32 },
    /// Show nothing.
    Clear,
    /// Ask whether the widget is there.
    Ping,
}

/// A single frame in an animation sequence.
#[derive(Debug, Clone, PartialEq)]
pub struct Frame {
    pub path: String,
    pub duration_ms: u32,
}

/// Responses sent from the widget back to the MCP bridge.
#[derive(Debug, Clone, PartialEq)]
pub enum Response {
    /// The command was carried out (`Ok` on the wire).
    Success,
    Error { message: String },
    Pong,
}

/// Largest payload, in bytes, that a reader accepts: 64 MiB. A corrupt stream
/// could otherwise announce a length that makes the reader allocate without
/// bound.
pub const MAX_MESSAGE_SIZE: usize = 67108864;

/// Why a frame could not be read.
#[derive(Debug, Clone, Copy, PartialEq, Eq)]
pub enum FrameError {
    /// The input ended before the length prefix or the payload was complete.
    UnexpectedEof,
    /// The length prefix announced more than [`MAX_MESSAGE_SIZE`] bytes.
    TooLarge { length: u32 },
}

/// The four bytes of `n`, most significant first.
pub open spec fn be_bytes(n: u32) -> Seq<u8> {
    seq![(n >> 24u32) as u8, (n >> 16u32) as u8, (n >> 8u32) as u8, n as u8]
}

/// The number whose big-endian bytes are `b[0..4]`.
pub open spec fn from_be_bytes(b: Seq<u8>) -> u32
    recommends
        b.len() >= 4,
{
    ((b[0] as u32) << 24u32) | ((b[1] as u32) << 16u32) | ((b[2] as u32) << 8u32) | (b[3] as u32)
}

/// The bytes that go on the wire for `payload`: its length, truncated to 32
/// bits, in big-endian order, then the payload itself.
pub open spec fn frame_of(payload: Seq<u8>) -> Seq<u8> {
    be_bytes(payload.len() as u32) + payload
}

/// What reading one frame from the front of `input` gives: the payload and
/// the number of bytes the frame took, or why no frame could be read.
pub open spec fn frame_read(input: Seq<u8>) -> Result<(Seq<u8>, int), FrameError> {
    if input.len() < 4 {
        Err(FrameError::UnexpectedEof)
    } else {
        let n = from_be_bytes(input);
        if n > MAX_MESSAGE_SIZE {
            Err(FrameError::TooLarge { length: n })
        } else if input.len() < 4 + n {
            Err(FrameError::UnexpectedEof)
        } else {
            Ok((input.subrange(4, 4 + n), 4 + n))
        }
    }
}

proof fn lemma_be_roundtrip_u32(n: u32)
    ensures
        ((((n >> 24u32) as u8) as u32) << 24u32) | ((((n >> 16u32) as u8) as u32) << 16u32) | ((((n
            >> 8u32) as u8) as u32) << 8u32) | (((n as u8) as u32)) == n,
{
    assert(((((n >> 24u32) as u8) as u32) << 24u32) | ((((n >> 16u32) as u8) as u32) << 16u32)
        | ((((n >> 8u32) as u8) as u32) << 8u32) | (((n as u8) as u32)) == n) by (bit_vector);
}

/// Reading back the four bytes of a number gives the number.
pub proof fn lemma_be_bytes_roundtrip(n: u32)
    ensures
        be_bytes(n).len() == 4,
        from_be_bytes(be_bytes(n)) == n,
{
    lemma_be_roundtrip_u32(n);
}

/// Appends the frame for `payload` to `out`: the 4-byte big-endian length,
/// then the payload bytes.
pub fn write_message(out: &mut Vec<u8>, payload: &[u8])
    ensures
        final(out)@ == old(out)@ + frame_of(payload@),
{
    let len: u32 = payload.len() as u32;
    out.push((len >> 24u32) as u8);
    out.push((len >> 16u32) as u8);
    out.push((len >> 8u32) as u8);
    out.push(len as u8);
    let ghost start = out@;
    let mut i: usize = 0;
    while i < payload.len()
        invariant
            i <= payload@.len(),
            start == old(out)@ + be_bytes(len),
            out@ == start + payload@.take(i as int),
            len == payload@.len() as u32,
        decreases payload@.len() - i,
    {
        out.push(payload[i]);
        i = i + 1;
        assert(payload@.take(i as int) =~= payload@.take(i - 1).push(payload@[i - 1]));
    }
    assert(payload@.take(i as int) =~= payload@);
    assert(out@ =~= old(out)@ + frame_of(payload@));
}

/// Reads the length prefix `prefix` and checks it against [`MAX_MESSAGE_SIZE`].
pub fn read_length_prefix(prefix: [u8; 4]) -> (res: Result<usize, FrameError>)
    ensures
        match res {
            Ok(n) => n == from_be_bytes(prefix@) && n <= MAX_MESSAGE_SIZE,
            Err(e) => e == (FrameError::TooLarge { length: from_be_bytes(prefix@) })
                && from_be_bytes(prefix@) > MAX_MESSAGE_SIZE,
        },
{
    let n: u32 = ((prefix[0] as u32) << 24u32) | ((prefix[1] as u32) << 16u32) | ((prefix[2] as u32)
        << 8u32) | (prefix[3] as u32);
    if n as usize > MAX_MESSAGE_SIZE {
        Err(FrameError::TooLarge { length: n })
    } else {
        Ok(n as usize)
    }
}

/// Reads one frame from the front of `input`. On success, returns the payload
/// and the number of bytes the frame took; the bytes after it are left alone.
pub fn read_message(input: &[u8]) -> (res: Result<(Vec<u8>, usize), FrameError>)
    ensures
        match res {
            Ok((payload, used)) => frame_read(input@) == Ok::<(Seq<u8>, int), FrameError>(
                (payload@, used as int),
            ),
            Err(e) => frame_read(input@) == Err::<(Seq<u8>, int), FrameError>(e),
        },
{
    if input.len() < 4 {
        return Err(FrameError::UnexpectedEof);
    }
    let prefix: [u8; 4] = [input[0], input[1], input[2], input[3]];
    assert(prefix@ =~= input@.take(4));
    let n = match read_length_prefix(prefix) {
        Ok(n) => n,
        Err(e) => return Err(e),
    };
    if input.len() - 4 < n {
        return Err(FrameError::UnexpectedEof);
    }
    let mut payload: Vec<u8> = Vec::new();
    let mut i: usize = 0;
    while i < n
        invariant
            i <= n,
            4 + n <= input.len(),
            payload@ == input@.subrange(4, 4 + i),
        decreases n - i,
    {
        payload.push(input[4 + i]);
        i = i + 1;
        assert(payload@ =~= input@.subrange(4, 4 + i));
    }
    Ok((payload, 4 + n))
}


/// What a reader gets back is what the writer framed: a payload of at most
/// [`MAX_MESSAGE_SIZE`] bytes, framed and followed by any further bytes of
/// the stream, reads back as exactly that payload, and the frame takes its
/// 4 prefix bytes plus the payload, leaving what follows for the next read.
pub proof fn law_frame_roundtrip(payload: Seq<u8>, rest: Seq<u8>)
    requires
        payload.len() <= MAX_MESSAGE_SIZE,
    ensures
        frame_read(frame_of(payload) + rest) == Ok::<(Seq<u8>, int), FrameError>(
            (payload, 4 + payload.len() as int),
        ),
{
    let n = payload.len();
    assert((n as u32) as int == n);
    lemma_be_bytes_roundtrip(n as u32);
    let input = frame_of(payload) + rest;
    assert(input.take(4) =~= be_bytes(n as u32));
    assert(from_be_bytes(input) == from_be_bytes(input.take(4)));
    assert(input.subrange(4, 4 + n as int) =~= payload);
}

/// A frame that was read is exactly the frame that writing its payload
/// produces: reading accepts nothing that writing would not emit.
pub proof fn law_read_frame_is_written_frame(input: Seq<u8>)
    requires
        frame_read(input) is Ok,
    ensures
        ({
            let (payload, used) = frame_read(input)->Ok_0;
            frame_of(payload) == input.take(used)
        }),
{
    let n = from_be_bytes(input);
    let b0 = input[0];
    let b1 = input[1];
    let b2 = input[2];
    let b3 = input[3];
    assert(n == ((b0 as u32) << 24u32) | ((b1 as u32) << 16u32) | ((b2 as u32) << 8u32) | (b3 as u32));
    assert({
        let m = ((b0 as u32) << 24u32) | ((b1 as u32) << 16u32) | ((b2 as u32) << 8u32) | (b3 as u32);
        &&& (m >> 24u32) as u8 == b0
        &&& (m >> 16u32) as u8 == b1
        &&& (m >> 8u32) as u8 == b2
        &&& m as u8 == b3
    }) by (bit_vector);
    let (payload, used) = frame_read(input)->Ok_0;
    assert(payload.len() == n);
    assert(frame_of(payload) =~= input.take(used));
}


/// The text of a read error: the message `read_exact` gives for a stream
/// that ends early, or the length and the limit for an oversized frame.
pub open spec fn frame_error_text(e: FrameError) -> Seq<char> {
    match e {
        FrameError::UnexpectedEof => "failed to fill whole buffer"@,
        FrameError::TooLarge { length } => "message length "@ + decimal(length as nat)
            + " exceeds maximum "@ + decimal(MAX_MESSAGE_SIZE as nat),
    }
}

/// The text of a read error (see [`frame_error_text`]).
pub fn frame_error_message(e: FrameError) -> (text: String)
    ensures
        text@ == frame_error_text(e),
{
    match e {
        FrameError::UnexpectedEof => String::from_str("failed to fill whole buffer"),
        FrameError::TooLarge { length } => {
            let mut text = String::from_str("message length ");
            let announced = decimal_text(length as u64);
            text.append(announced.as_str());
            text.append(" exceeds maximum ");
            let limit = decimal_text(MAX_MESSAGE_SIZE as u64);
            text.append(limit.as_str());
            text
        },
    }
}

} // verus!
