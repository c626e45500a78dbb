//! Length-prefixed frames: a 32-bit big-endian payload length, then the payload.
use vstd::prelude::*;
use crate::codec::{be32, from_be32, push_all, push_be32, lemma_be32_roundtrip};
use crate::error::{DropWireError, protocol_error};
use crate::types::FRAME_MAX_SIZE;

verus! {

/// The bytes that carry `payload` as one frame.
pub open spec fn frame_layout(payload: Seq<u8>) -> Seq<u8> {
    be32(payload.len() as u32) + payload
}

/// Frames `payload`; a protocol error when it is longer than `FRAME_MAX_SIZE`.
pub fn encode_frame(payload: &[u8]) -> (r: Result<Vec<u8>, DropWireError>)
    ensures
        payload@.len() > FRAME_MAX_SIZE <==> r is Err,
        r matches Ok(f) ==> f@ == frame_layout(payload@),
        r matches Err(e) ==> e is Protocol,
{
    if payload.len() > FRAME_MAX_SIZE as usize {
        return Err(protocol_error("frame too large"));
    }
    let mut out: Vec<u8> = Vec::new();
    push_be32(&mut out, payload.len() as u32);
    push_all(&mut out, payload);
    Ok(out)
}

/// The payload length a frame header announces; a protocol error when it is
/// more than `FRAME_MAX_SIZE`.
pub fn frame_payload_len(header: &[u8; 4]) -> (r: Result<u32, DropWireError>)
    ensures
        r is Ok <==> from_be32(header@) <= FRAME_MAX_SIZE,
        r matches Ok(n) ==> n == from_be32(header@),
        r matches Err(e) ==> e is Protocol,
{
    let len = ((header[0] as u32) << 24) | ((header[1] as u32) << 16) | ((header[2] as u32) << 8)
        | (header[3] as u32);
    if len > FRAME_MAX_SIZE {
        return Err(protocol_error("frame too large"));
    }
    Ok(len)
}

/// A frame reads back as its payload: its header announces exactly the
/// payload's length, which the reader accepts, and the payload follows.
pub proof fn lemma_frame_roundtrip(payload: Seq<u8>)
    requires
        payload.len() <= FRAME_MAX_SIZE,
    ensures
        frame_layout(payload).len() == 4 + payload.len(),
        from_be32(frame_layout(payload).subrange(0, 4)) == payload.len(),
        frame_layout(payload).subrange(4, 4 + payload.len() as int) == payload,
{
    lemma_be32_roundtrip(payload.len() as u32);
    assert(frame_layout(payload).subrange(0, 4) =~= be32(payload.len() as u32));
    assert(frame_layout(payload).subrange(4, 4 + payload.len() as int) =~= payload);
}

} // verus!
