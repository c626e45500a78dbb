//! Chunk frames and the handshake that opens each of the parallel TCP streams.
use vstd::prelude::*;
use crate::codec::{be32, be64, from_be32, from_be64, push_all, push_be32, push_be64, read_be32, read_be64, copy_range, lemma_be32_roundtrip, lemma_be64_roundtrip};
use crate::error::{DropWireError, protocol_error, network_error};
use crate::net::signaling::Role;
use crate::text::{ascii_bytes, ascii_str_bytes, hex_encode, hex_lower, lemma_hex_lower};

verus! {

/// One encrypted chunk on the wire.
pub struct ChunkFrame {
    pub chunk_index: u64,
    pub is_compressed: bool,
    pub data: Vec<u8>,
}

/// The wire layout of a chunk frame: index, compression flag, data length, data.
pub open spec fn chunk_frame_layout(chunk_index: u64, is_compressed: bool, data: Seq<u8>) -> Seq<u8> {
    be64(chunk_index) + seq![if is_compressed { 1u8 } else { 0u8 }] + be32(data.len() as u32) + data
}

/// What the bytes decode to as a chunk frame: `(index, compressed, data)`, or
/// `None` when they are too short for the header or for the data it announces.
/// Bytes after the data are ignored.
pub open spec fn decode_chunk_frame(bytes: Seq<u8>) -> Option<(u64, bool, Seq<u8>)> {
    if bytes.len() < 13 {
        None
    } else {
        let len = from_be32(bytes.subrange(9, 13));
        if bytes.len() < 13 + len {
            None
        } else {
            Some((from_be64(bytes.subrange(0, 8)), bytes[8] == 1, bytes.subrange(13, 13 + len)))
        }
    }
}

impl ChunkFrame {
    /// The wire form of the frame.
    pub fn to_bytes(&self) -> (buf: Vec<u8>)
        ensures
            buf@ == chunk_frame_layout(self.chunk_index, self.is_compressed, self.data@),
    {
        let mut buf: Vec<u8> = Vec::new();
        push_be64(&mut buf, self.chunk_index);
        buf.push(if self.is_compressed { 1 } else { 0 });
        push_be32(&mut buf, #[verifier::truncate] (self.data.len() as u32));
        push_all(&mut buf, self.data.as_slice());
        proof {
            assert(buf@ =~= chunk_frame_layout(self.chunk_index, self.is_compressed, self.data@));
        }
        buf
    }

    /// Reads a frame; a protocol error when the bytes are too short.
    pub fn from_bytes(bytes: &[u8]) -> (r: Result<Self, DropWireError>)
        ensures
            match r {
                Ok(f) => decode_chunk_frame(bytes@) == Some((f.chunk_index, f.is_compressed, f.data@)),
                Err(e) => decode_chunk_frame(bytes@) is None && e is Protocol,
            },
    {
        if bytes.len() < 13 {
            return Err(protocol_error("Frame too short"));
        }
        let chunk_index = read_be64(bytes, 0);
        let is_compressed = bytes[8] == 1;
        let data_len = read_be32(bytes, 9) as usize;
        if bytes.len() - 13 < data_len {
            return Err(protocol_error("Frame data too short"));
        }
        let data = copy_range(bytes, 13, 13 + data_len);
        Ok(ChunkFrame { chunk_index, is_compressed, data })
    }
}

/// A frame reads back as the frame that was written, whatever follows it,
/// as long as its data length fits the 32-bit length field.
pub proof fn lemma_chunk_frame_roundtrip(chunk_index: u64, is_compressed: bool, data: Seq<u8>, rest: Seq<u8>)
    requires
        data.len() <= u32::MAX,
    ensures
        decode_chunk_frame(chunk_frame_layout(chunk_index, is_compressed, data) + rest) == Some(
            (chunk_index, is_compressed, data),
        ),
{
    let b = chunk_frame_layout(chunk_index, is_compressed, data) + rest;
    lemma_be64_roundtrip(chunk_index);
    lemma_be32_roundtrip(data.len() as u32);
    assert(b.subrange(0, 8) =~= be64(chunk_index));
    assert(b.subrange(9, 13) =~= be32(data.len() as u32));
    assert(b.subrange(13, 13 + data.len() as int) =~= data);
}

/// The stream a chunk travels on: chunks are dealt round-robin by index.
pub fn stream_for_chunk(chunk_index: u64, num_streams: usize) -> (idx: usize)
    requires
        num_streams > 0,
    ensures
        idx == chunk_index % (num_streams as u64),
        idx < num_streams,
{
    (chunk_index % (num_streams as u64)) as usize
}

/// The role byte of a stream handshake.
pub open spec fn role_byte(role: Role) -> u8 {
    match role {
        Role::Sender => 1u8,
        Role::Receiver => 2u8,
    }
}

/// The handshake that opens a stream: the 16-byte auth token, the length of
/// the channel name, the channel name (the auth token in lowercase hex) and the
/// role byte.
pub open spec fn stream_handshake_layout(auth_token: Seq<u8>, role: Role) -> Seq<u8> {
    auth_token + seq![(2 * auth_token.len()) as u8] + ascii_bytes(hex_lower(auth_token)) + seq![role_byte(role)]
}

/// The first bytes written on each parallel stream.
pub fn stream_handshake(auth_token: &[u8; 16], role: Role) -> (h: Vec<u8>)
    ensures
        h@ == stream_handshake_layout(auth_token@, role),
{
    let tcp_channel = hex_encode(auth_token.as_slice());
    proof {
        lemma_hex_lower(auth_token@);
    }
    let channel_bytes = ascii_str_bytes(tcp_channel.as_str());
    let mut handshake: Vec<u8> = Vec::new();
    push_all(&mut handshake, auth_token.as_slice());
    handshake.push(channel_bytes.len() as u8);
    push_all(&mut handshake, channel_bytes.as_slice());
    handshake.push(if role == Role::Sender { 0x01 } else { 0x02 });
    proof {
        assert(handshake@ =~= stream_handshake_layout(auth_token@, role));
    }
    handshake
}

/// The stream index to send on, checked against the number of streams.
pub fn check_stream_index(stream_idx: usize, num_streams: usize) -> (r: Result<usize, DropWireError>)
    ensures
        r matches Ok(i) ==> i == stream_idx && stream_idx < num_streams,
        r is Err <==> stream_idx >= num_streams,
        r matches Err(e) ==> e is Network,
{
    if stream_idx >= num_streams {
        return Err(network_error("Invalid stream index"));
    }
    Ok(stream_idx)
}

} // verus!
