//! Length-prefixed frames: a two-byte big-endian length, then that many
//! payload bytes.

use crate::endian::{
    be_bytes, be_decode, be_encode, be_value, lemma_be_bytes_len, lemma_be_value_bound,
    lemma_be_value_of_bytes, lemma_radix_values,
};
use vstd::prelude::*;

verus! {

/// Number of bytes in a frame's length header.
pub const HEADER_LEN: usize = 2;

/// The longest payload that a frame can carry.
pub const MAX_PAYLOAD: usize = 65535;

/// What can go wrong when a frame is built or taken apart.
#[derive(Debug, Clone, Copy, PartialEq, Eq, Structural)]
pub enum FrameError {
    /// The payload is longer than a 16-bit length can announce.
    PayloadTooLong,
    /// Fewer than two bytes were there to read as a header: the peer is gone.
    HeaderTruncated,
    /// The header was read, but fewer payload bytes followed than it announced.
    PayloadTruncated,
}

/// The bytes of the frame that carries `payload`.
pub open spec fn frame_bytes(payload: Seq<u8>) -> Seq<u8> {
    be_bytes(payload.len(), HEADER_LEN as nat) + payload
}

/// The payload length that the first two bytes of `wire` announce.
pub open spec fn announced_len(wire: Seq<u8>) -> nat {
    be_value(wire.take(HEADER_LEN as int))
}

/// The payload of the frame at the start of `wire`, or the reason why there
/// is none. Bytes after the frame are left alone.
pub open spec fn parse_frame(wire: Seq<u8>) -> Result<Seq<u8>, FrameError> {
    if wire.len() < HEADER_LEN {
        Err(FrameError::HeaderTruncated)
    } else if wire.len() - HEADER_LEN < announced_len(wire) {
        Err(FrameError::PayloadTruncated)
    } else {
        Ok(wire.subrange(HEADER_LEN as int, HEADER_LEN + announced_len(wire)))
    }
}

/// A frame is read back as the payload it was built from, whatever follows
/// it on the wire, for every payload of at most 65535 bytes.
pub proof fn lemma_frame_round_trip(payload: Seq<u8>, rest: Seq<u8>)
    requires
        payload.len() <= MAX_PAYLOAD,
    ensures
        frame_bytes(payload).len() == HEADER_LEN + payload.len(),
        announced_len(frame_bytes(payload) + rest) == payload.len(),
        parse_frame(frame_bytes(payload) + rest) == Ok::<Seq<u8>, FrameError>(payload),
{
    let header = be_bytes(payload.len(), HEADER_LEN as nat);
    let wire = frame_bytes(payload) + rest;
    lemma_be_bytes_len(payload.len(), HEADER_LEN as nat);
    lemma_radix_values();
    lemma_be_value_of_bytes(payload.len(), HEADER_LEN as nat);
    assert(wire.take(HEADER_LEN as int) =~= header);
    assert(wire.subrange(HEADER_LEN as int, HEADER_LEN + payload.len()) =~= payload);
}

/// Appends `src[from..to]` to `out`.
fn append_range(out: &mut Vec<u8>, src: &[u8], from: usize, to: usize)
    requires
        from <= to <= src@.len(),
    ensures
        final(out)@ == old(out)@ + src@.subrange(from as int, to as int),
{
    let mut i: usize = from;
    while i < to
        invariant
            from <= i <= to <= src@.len(),
            out@ =~= old(out)@ + src@.subrange(from as int, i as int),
        decreases to - i,
    {
        out.push(src[i]);
        i += 1;
    }
}

/// Builds the frame for `payload`: the length in two bytes, then the payload.
/// A payload of more than 65535 bytes is refused.
pub fn encode_frame(payload: &[u8]) -> (result: Result<Vec<u8>, FrameError>)
    ensures
        match result {
            Ok(wire) => payload@.len() <= MAX_PAYLOAD && wire@ == frame_bytes(payload@),
            Err(error) => payload@.len() > MAX_PAYLOAD && error == FrameError::PayloadTooLong,
        },
{
    if payload.len() > MAX_PAYLOAD {
        return Err(FrameError::PayloadTooLong);
    }
    let mut wire = be_encode(payload.len() as u64, HEADER_LEN);
    append_range(&mut wire, payload, 0, payload.len());
    assert(payload@.subrange(0, payload@.len() as int) =~= payload@);
    Ok(wire)
}

/// Reads a length header. Anything but exactly two bytes counts as a
/// truncated header.
pub fn decode_header(header: &[u8]) -> (result: Result<usize, FrameError>)
    ensures
        match result {
            Ok(len) => header@.len() == HEADER_LEN && len == be_value(header@) <= MAX_PAYLOAD,
            Err(error) => header@.len() != HEADER_LEN && error == FrameError::HeaderTruncated,
        },
{
    if header.len() != HEADER_LEN {
        return Err(FrameError::HeaderTruncated);
    }
    proof {
        lemma_be_value_bound(header@);
        lemma_radix_values();
    }
    Ok(be_decode(header) as usize)
}

/// Takes the frame at the start of `wire` apart and returns its payload.
/// The frame ends `HEADER_LEN + payload.len()` bytes into `wire`.
pub fn decode_frame(wire: &[u8]) -> (result: Result<Vec<u8>, FrameError>)
    ensures
        match result {
            Ok(payload) => parse_frame(wire@) == Ok::<Seq<u8>, FrameError>(payload@),
            Err(e) => parse_frame(wire@) == Err::<Seq<u8>, FrameError>(e),
        },
{
    if wire.len() < HEADER_LEN {
        return Err(FrameError::HeaderTruncated);
    }
    let mut header: Vec<u8> = Vec::new();
    append_range(&mut header, wire, 0, HEADER_LEN);
    assert(header@ =~= wire@.take(HEADER_LEN as int));
    proof {
        lemma_be_value_bound(header@);
        lemma_radix_values();
    }
    let len = be_decode(header.as_slice()) as usize;
    if wire.len() - HEADER_LEN < len {
        return Err(FrameError::PayloadTruncated);
    }
    let mut payload: Vec<u8> = Vec::new();
    append_range(&mut payload, wire, HEADER_LEN, HEADER_LEN + len);
    Ok(payload)
}

} // verus!
