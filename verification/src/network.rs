//! Framing of messages on a connection: each message travels as a frame of
//! bytes preceded by its length (the default `LengthDelimitedCodec` of
//! `tokio_util`: four bytes, big-endian, at most 8 MiB of payload).
//! Turning messages into payload bytes and back is the job of the caller.

use bytes::{Bytes, BytesMut};
use tokio_util::codec::{Decoder, Encoder, LengthDelimitedCodec};
use vstd::prelude::*;

verus! {

#[verifier::external_type_specification]
#[verifier::external_body]
pub struct ExIoError(std::io::Error);

/// Largest payload the codec accepts, its default of 8 MiB.
pub const MAX_FRAME_LENGTH: usize = 8388608;

/// Length of the frame header.
pub const HEADER_LENGTH: usize = 4;

/// The number that four big-endian bytes encode.
pub open spec fn be_u32(b: Seq<u8>) -> nat {
    (b[0] as nat) * 16777216 + (b[1] as nat) * 65536 + (b[2] as nat) * 256 + (b[3] as nat)
}

/// The four big-endian bytes of a length below 2^32.
pub open spec fn frame_header(n: nat) -> Seq<u8> {
    seq![
        (n / 16777216) as u8,
        ((n / 65536) % 256) as u8,
        ((n / 256) % 256) as u8,
        (n % 256) as u8,
    ]
}

/// What the bytes at the start of a receive buffer hold.
pub enum FrameParse {
    /// Not a whole frame yet.
    Incomplete,
    /// The header announces more than `MAX_FRAME_LENGTH` bytes.
    TooLong,
    /// A whole frame, and the bytes after it.
    Frame(Seq<u8>, Seq<u8>),
}

pub open spec fn spec_parse_frame(buf: Seq<u8>) -> FrameParse {
    if buf.len() < HEADER_LENGTH {
        FrameParse::Incomplete
    } else {
        let n = be_u32(buf.take(4));
        if n > MAX_FRAME_LENGTH {
            FrameParse::TooLong
        } else if buf.len() < 4 + n {
            FrameParse::Incomplete
        } else {
            FrameParse::Frame(buf.subrange(4, 4 + n as int), buf.skip(4 + n as int))
        }
    }
}

/// The bytes of a frame carrying this payload.
pub open spec fn spec_frame(payload: Seq<u8>) -> Seq<u8> {
    frame_header(payload.len()) + payload
}

/// `Decoder::decode` of a new `LengthDelimitedCodec` on a copy of `buf`:
/// reads a big-endian 4-byte length; more than 8 MiB is an error; with the
/// whole frame present it returns the payload and what follows it.
#[verifier::external_body]
fn length_delimited_decode(buf: &[u8]) -> (res: Result<Option<(Vec<u8>, Vec<u8>)>, std::io::Error>)
    ensures
        match spec_parse_frame(buf@) {
            FrameParse::Incomplete => res matches Ok(None),
            FrameParse::TooLong => res is Err,
            FrameParse::Frame(frame, rest) => res matches Ok(Some((f, r))) && f@ == frame && r@
                == rest,
        },
{
    let mut b = BytesMut::from(buf);
    match LengthDelimitedCodec::new().decode(&mut b) {
        Ok(Some(frame)) => Ok(Some((frame.to_vec(), b.to_vec()))),
        Ok(None) => Ok(None),
        Err(e) => Err(e),
    }
}

/// `Encoder::encode` of a new `LengthDelimitedCodec` into an empty buffer:
/// more than 8 MiB is an error, otherwise the 4-byte big-endian length
/// followed by the payload.
#[verifier::external_body]
fn length_delimited_encode(data: &[u8]) -> (res: Result<Vec<u8>, std::io::Error>)
    ensures
        match res {
            Ok(out) => data@.len() <= MAX_FRAME_LENGTH && out@ == spec_frame(data@),
            Err(_) => data@.len() > MAX_FRAME_LENGTH,
        },
{
    let mut dst = BytesMut::new();
    match LengthDelimitedCodec::new().encode(Bytes::copy_from_slice(data), &mut dst) {
        Ok(()) => Ok(dst.to_vec()),
        Err(e) => Err(e),
    }
}

/// Why a connection's stream failed.
#[derive(Debug)]
pub enum MessageStreamError {
    /// A payload did not hold a message.
    Bincode(String),
    /// The framing failed (a frame longer than the codec accepts).
    Io(std::io::Error),
}

/// Frames messages on a connection.
#[derive(Debug)]
pub struct MessageCodec {}

impl MessageCodec {
    pub fn new() -> (r: MessageCodec) {
        MessageCodec {  }
    }

    /// Takes the next whole frame from the front of the receive buffer and
    /// returns its payload; with no whole frame yet the buffer is left as
    /// it is.
    pub fn decode_frame(&mut self, src: &mut Vec<u8>) -> (res: Result<Option<Vec<u8>>, MessageStreamError>)
        ensures
            match spec_parse_frame(old(src)@) {
                FrameParse::Incomplete => res matches Ok(None) && final(src)@ == old(src)@,
                FrameParse::TooLong => res matches Err(MessageStreamError::Io(_)) && final(src)@ == old(
                    src,
                )@,
                FrameParse::Frame(frame, rest) => res matches Ok(Some(f)) && f@ == frame
                    && final(src)@ == rest,
            },
    {
        match length_delimited_decode(src.as_slice()) {
            Ok(Some((frame, rest))) => {
                *src = rest;
                Ok(Some(frame))
            },
            Ok(None) => Ok(None),
            Err(e) => Err(MessageStreamError::Io(e)),
        }
    }

    /// Appends the frame of a payload to the send buffer.
    pub fn encode_frame(&mut self, payload: &[u8], dst: &mut Vec<u8>) -> (res: Result<(), MessageStreamError>)
        ensures
            payload@.len() <= MAX_FRAME_LENGTH ==> res is Ok && final(dst)@ == old(dst)@ + spec_frame(
                payload@,
            ),
            payload@.len() > MAX_FRAME_LENGTH ==> (res matches Err(MessageStreamError::Io(_))
                && final(dst)@ == old(dst)@),
    {
        match length_delimited_encode(payload) {
            Ok(mut bytes) => {
                dst.append(&mut bytes);
                Ok(())
            },
            Err(e) => Err(MessageStreamError::Io(e)),
        }
    }
}

/// A frame's header gives back the length it was made from.
pub proof fn lemma_header_roundtrip(n: nat)
    requires
        n <= MAX_FRAME_LENGTH,
    ensures
        be_u32(frame_header(n)) == n,
{
    let b0 = n / 16777216;
    let b1 = (n / 65536) % 256;
    let b2 = (n / 256) % 256;
    let b3 = n % 256;
    assert(b0 < 256);
    assert(b0 * 16777216 + b1 * 65536 + b2 * 256 + b3 == n) by (nonlinear_arith)
        requires
            b0 == n / 16777216,
            b1 == (n / 65536) % 256,
            b2 == (n / 256) % 256,
            b3 == n % 256,
    ;
}

/// Reading back what was framed gives the payload and leaves the bytes that
/// followed it.
pub proof fn law_frame_roundtrip(payload: Seq<u8>, rest: Seq<u8>)
    requires
        payload.len() <= MAX_FRAME_LENGTH,
    ensures
        spec_parse_frame(spec_frame(payload) + rest) == FrameParse::Frame(payload, rest),
{
    let buf = spec_frame(payload) + rest;
    lemma_header_roundtrip(payload.len());
    assert(buf.take(4) =~= frame_header(payload.len()));
    assert(buf.subrange(4, 4 + payload.len() as int) =~= payload);
    assert(buf.skip(4 + payload.len() as int) =~= rest);
}

} // verus!
