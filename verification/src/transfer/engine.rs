//! The transfer protocol: encrypted control frames, the chunk-hash manifest,
//! the resume bitmap, chunk frames and the final acknowledgement. The network
//! and disk work is done by the caller, step by step.
use vstd::prelude::*;
use crate::bitmap::{bitmap_bits, bitmap_aligned, bitmap_clone, bitmap_force_align, bitmap_from_slice, bitmap_get, bitmap_len, bitmap_into_vec, lsb0_bits, lsb0_bit, max_bits, packs};
use crate::codec::{be64, push_all, copy_range};
use crate::crypto::stream::{aead_decrypt, aead_encrypt, aead_open, aead_seal, aead_msg_fits, decrypt_chunk, encrypt_chunk};
use crate::error::{DropWireError, crypto_error, protocol_error};
use crate::net::parallel::ChunkFrame;
use crate::text::{chars_of, split_on, split_chars, string_from_chars};
use crate::transfer::compress::{decompress, decompressed, maybe_compress};
use crate::transfer::chunker::chunk_matches;
use crate::crypto::blake3_hash_spec;
use crate::transfer::resume::{PartialState, concat_hashes, hash_views, hash_at, lemma_concat_hashes_push, lemma_concat_hashes_len, split_hashes};
use crate::types::TransferManifest;

verus! {

/// The keys of one transfer.
pub struct TransferEngine {
    pub stream_key: [u8; 32],
    pub control_key: [u8; 32],
}

/// Sequence number and frame type of the manifest header.
pub const HEADER_SEQ: u64 = 0;
pub const HEADER_TYPE: u8 = 0x01;

/// Sequence number and frame type of the chunk-hash manifest.
pub const HASHES_SEQ: u64 = 1;
pub const HASHES_TYPE: u8 = 0x02;

/// Sequence number and frame type of the resume bitmap.
pub const RESUME_SEQ: u64 = 2;
pub const RESUME_TYPE: u8 = 0x03;

/// Sequence number and frame type of the final acknowledgement.
pub const ACK_SEQ: u64 = 3;
pub const ACK_TYPE: u8 = 0x04;

/// The chunk index that marks the end of the chunks.
pub const EOF_INDEX: u64 = 0xFFFF_FFFF_FFFF_FFFF;

/// The nonce of control frame `seq`: `CTRL`, then the sequence number big-endian.
pub open spec fn control_nonce(seq: u64) -> Seq<u8> {
    seq![0x43u8, 0x54u8, 0x52u8, 0x4cu8] + be64(seq)
}

fn control_nonce_of(seq: u64) -> (n: [u8; 12])
    ensures
        n@ == control_nonce(seq),
{
    let n: [u8; 12] = [
        0x43,
        0x54,
        0x52,
        0x4c,
        (seq >> 56) as u8,
        (seq >> 48) as u8,
        (seq >> 40) as u8,
        (seq >> 32) as u8,
        (seq >> 24) as u8,
        (seq >> 16) as u8,
        (seq >> 8) as u8,
        seq as u8,
    ];
    assert(n@ =~= control_nonce(seq));
    n
}

impl TransferEngine {
    /// An engine with the stream key and the control key.
    pub fn new(stream_key: [u8; 32], control_key: [u8; 32]) -> (e: Self)
        ensures
            e.stream_key == stream_key,
            e.control_key == control_key,
    {
        TransferEngine { stream_key, control_key }
    }

    /// Encrypts control frame `seq` of type `frame_type` (the type is the
    /// associated data).
    pub fn encrypt_control(&self, seq: u64, frame_type: u8, plaintext: &[u8]) -> (r: Result<Vec<u8>, DropWireError>)
        ensures
            r is Ok <==> aead_msg_fits(plaintext@.len()),
            r matches Ok(c) ==> c@ == aead_seal(self.control_key@, control_nonce(seq), seq![frame_type], plaintext@),
            r matches Err(e) ==> e is Crypto,
    {
        let nonce = control_nonce_of(seq);
        let aad: [u8; 1] = [frame_type];
        assert(aad@ =~= seq![frame_type]);
        match aead_encrypt(&self.control_key, &nonce, aad.as_slice(), plaintext) {
            Ok(c) => Ok(c),
            Err(_) => Err(crypto_error("Control frame encryption failed")),
        }
    }

    /// Decrypts control frame `seq` of type `frame_type`; a crypto error when
    /// the tag does not check. What `encrypt_control` produced with the same
    /// keys, number and type decrypts to its plaintext.
    pub fn decrypt_control(&self, seq: u64, frame_type: u8, ciphertext: &[u8]) -> (r: Result<Vec<u8>, DropWireError>)
        ensures
            r matches Ok(p) ==> aead_open(self.control_key@, control_nonce(seq), seq![frame_type], ciphertext@) == Some(p@),
            r is Err <==> aead_open(self.control_key@, control_nonce(seq), seq![frame_type], ciphertext@) is None,
            r matches Err(e) ==> e is Crypto,
            forall|m: Seq<u8>|
                #![trigger aead_seal(self.control_key@, control_nonce(seq), seq![frame_type], m)]
                aead_msg_fits(m.len()) && ciphertext@ == aead_seal(self.control_key@, control_nonce(seq), seq![frame_type], m)
                    ==> (r matches Ok(p) && p@ == m),
    {
        let nonce = control_nonce_of(seq);
        let aad: [u8; 1] = [frame_type];
        assert(aad@ =~= seq![frame_type]);
        match aead_decrypt(&self.control_key, &nonce, aad.as_slice(), ciphertext) {
            Ok(p) => Ok(p),
            Err(_) => Err(crypto_error("Control frame decryption failed")),
        }
    }
}

/// The chunk-hash manifest: every chunk hash, one after another.
pub fn encode_chunk_hashes(hashes: &Vec<[u8; 32]>) -> (b: Vec<u8>)
    ensures
        b@ == concat_hashes(hash_views(hashes@)),
{
    let mut b: Vec<u8> = Vec::new();
    let mut i: usize = 0;
    while i < hashes.len()
        invariant
            i <= hashes@.len(),
            b@ == concat_hashes(hash_views(hashes@.take(i as int))),
        decreases hashes@.len() - i,
    {
        push_all(&mut b, hashes[i].as_slice());
        proof {
            let hs = hashes@;
            assert(hash_views(hs.take(i + 1)) =~= hash_views(hs.take(i as int)).push(hs[i as int]@));
            lemma_concat_hashes_push(hash_views(hs.take(i as int)), hs[i as int]@);
        }
        i = i + 1;
    }
    assert(hashes@.take(i as int) =~= hashes@);
    b
}

/// Reads the chunk-hash manifest of a transfer of `total_chunks` chunks; a
/// protocol error ("Invalid manifest size") unless it is exactly 32 bytes per
/// chunk.
pub fn decode_chunk_hashes(bytes: &[u8], total_chunks: u64) -> (r: Result<Vec<[u8; 32]>, DropWireError>)
    ensures
        r is Ok <==> bytes@.len() == 32 * total_chunks,
        r matches Ok(hs) ==> hash_views(hs@) == split_hashes(bytes@, 0, total_chunks as nat),
        r matches Err(e) ==> e is Protocol,
{
    let blen = bytes.len();
    let expected = total_chunks.checked_mul(32);
    match expected {
        Some(n) => {
            if bytes.len() as u64 != n {
                return Err(protocol_error("Invalid manifest size"));
            }
        },
        None => {
            return Err(protocol_error("Invalid manifest size"));
        },
    }
    let mut hs: Vec<[u8; 32]> = Vec::new();
    let mut k: u64 = 0;
    let mut off: usize = 0;
    while k < total_chunks
        invariant
            k <= total_chunks,
            blen == bytes@.len(),
            bytes@.len() == 32 * total_chunks,
            off == 32 * k,
            hash_views(hs@) == split_hashes(bytes@, 0, k as nat),
        decreases total_chunks - k,
    {
        let h = hash_at(bytes, off);
        let ghost before = hs@;
        hs.push(h);
        proof {
            assert(hash_views(hs@) =~= hash_views(before).push(h@));
            assert(hash_views(hs@) =~= split_hashes(bytes@, 0, (k + 1) as nat));
        }
        off = off + 32;
        k = k + 1;
    }
    Ok(hs)
}

/// The resume frame a receiver sends: a one (there is resume state), then the
/// received-chunk bitmap.
pub fn build_resume_frame(state: &PartialState) -> (f: Vec<u8>)
    ensures
        f@.len() >= 1,
        f@[0] == 1u8,
        packs(f@.skip(1), bitmap_bits(state.received)),
{
    let mut f: Vec<u8> = Vec::new();
    f.push(1);
    let mut aligned = bitmap_clone(&state.received);
    bitmap_force_align(&mut aligned);
    let bits = bitmap_into_vec(aligned);
    push_all(&mut f, bits.as_slice());
    assert(f@.skip(1) =~= bits@);
    f
}

/// Whether chunk `i` is already on the receiver's disk, as the sender reads
/// a resume frame: only when the frame says it carries resume state, has a
/// bitmap, and the bitmap covers the chunk.
pub open spec fn skip_chunk(frame: Seq<u8>, i: int) -> bool {
    frame[0] == 1 && frame.len() > 1 && i < 8 * (frame.len() - 1) && lsb0_bit(frame.skip(1), i)
}

/// Reads a resume frame for a transfer of `total_chunks` chunks: for each
/// chunk, whether to skip it. A protocol error ("Invalid resume frame") when
/// the frame is empty.
pub fn parse_resume_frame(frame: &[u8], total_chunks: u64) -> (r: Result<Vec<bool>, DropWireError>)
    requires
        total_chunks <= usize::MAX,
        8 * frame@.len() <= max_bits(),
    ensures
        r is Err <==> frame@.len() == 0,
        r matches Err(e) ==> e is Protocol,
        r matches Ok(skip) ==> skip@.len() == total_chunks && forall|i: int|
            0 <= i < total_chunks ==> #[trigger] skip@[i] == skip_chunk(frame@, i),
{
    if frame.len() == 0 {
        return Err(protocol_error("Invalid resume frame"));
    }
    let has_resume = frame[0] == 1;
    let n = total_chunks as usize;
    let mut bitmap: Vec<bool> = Vec::new();
    let mut k: usize = 0;
    while k < n
        invariant
            k <= n,
            bitmap@ == Seq::new(k as nat, |j: int| false),
        decreases n - k,
    {
        bitmap.push(false);
        k = k + 1;
        assert(bitmap@ =~= Seq::new(k as nat, |j: int| false));
    }
    if has_resume && frame.len() > 1 {
        let tail = copy_range(frame, 1, frame.len());
        assert(tail@ =~= frame@.skip(1));
        let bits = bitmap_from_slice(tail.as_slice());
        let blen = bitmap_len(&bits);
        let mut i: usize = 0;
        while i < n
            invariant
                i <= n,
                n == total_chunks,
                frame@.len() > 1,
                frame@[0] == 1,
                bitmap_bits(bits) == lsb0_bits(frame@.skip(1)),
                blen == bitmap_bits(bits).len(),
                bitmap@.len() == n,
                forall|j: int| 0 <= j < i ==> #[trigger] bitmap@[j] == skip_chunk(frame@, j),
                forall|j: int| i <= j < n ==> #[trigger] bitmap@[j] == false,
            decreases n - i,
        {
            if i < blen {
                let b = bitmap_get(&bits, i);
                bitmap.set(i, b);
            } else {
                assert(!skip_chunk(frame@, i as int));
            }
            i = i + 1;
        }
    } else {
        assert forall|j: int| 0 <= j < total_chunks implies #[trigger] bitmap@[j] == skip_chunk(frame@, j) by {
        }
    }
    Ok(bitmap)
}

/// The receiver reads the hash manifest as the list the sender encoded: the
/// manifest of `n` hashes has exactly `32 * n` bytes and splits back into them.
pub proof fn lemma_hash_manifest_roundtrip(hashes: Seq<[u8; 32]>)
    ensures
        concat_hashes(hash_views(hashes)).len() == 32 * hashes.len(),
        split_hashes(concat_hashes(hash_views(hashes)), 0, hashes.len()) == hash_views(hashes),
{
    let hv = hash_views(hashes);
    lemma_concat_hashes_len(hv);
    let c = concat_hashes(hv);
    assert forall|i: int| 0 <= i < hashes.len() implies #[trigger] split_hashes(c, 0, hashes.len())[i] == hv[i] by {
        assert(c.subrange(0 + 32 * i, 0 + 32 * i + 32) =~= c.subrange(32 * i, 32 * i + 32));
    }
    assert(split_hashes(c, 0, hashes.len()) =~= hv);
}

/// The sender skips exactly the chunks the receiver has: reading the resume
/// frame built from a bitmap that packs the received set gives, for every
/// chunk, whether it was received.
pub proof fn lemma_resume_frame_agrees(frame: Seq<u8>, received: Seq<bool>)
    requires
        frame.len() >= 1,
        frame[0] == 1,
        packs(frame.skip(1), received),
    ensures
        forall|i: int| 0 <= i < received.len() ==> #[trigger] skip_chunk(frame, i) == received[i],
{
    assert forall|i: int| 0 <= i < received.len() implies #[trigger] skip_chunk(frame, i) == received[i] by {
        assert(lsb0_bit(frame.skip(1), i) == received[i]);
        if received.len() > 0 {
            assert(frame.len() - 1 == (received.len() + 7) / 8);
            assert(i < 8 * (frame.len() - 1));
        }
    }
}

/// The chunks a sender transmits, in order: every index the skip list does
/// not mark.
pub fn chunks_to_send(skip: &Vec<bool>) -> (r: Vec<u64>)
    requires
        skip@.len() <= u64::MAX,
    ensures
        forall|k: int| 0 <= k < r@.len() ==> r@[k] < skip@.len() && !skip@[r@[k] as int],
        forall|k: int, l: int| 0 <= k < l < r@.len() ==> r@[k] < r@[l],
        forall|i: int| 0 <= i < skip@.len() && !skip@[i] ==> r@.contains(i as u64),
{
    let mut r: Vec<u64> = Vec::new();
    let mut i: usize = 0;
    while i < skip.len()
        invariant
            i <= skip@.len() <= u64::MAX,
            forall|k: int| 0 <= k < r@.len() ==> r@[k] < i && !skip@[r@[k] as int],
            forall|k: int, l: int| 0 <= k < l < r@.len() ==> r@[k] < r@[l],
            forall|j: int| 0 <= j < i && !skip@[j] ==> r@.contains(j as u64),
        decreases skip@.len() - i,
    {
        if !skip[i] {
            let ghost before = r@;
            r.push(i as u64);
            proof {
                assert forall|j: int| 0 <= j < i + 1 && !skip@[j] implies r@.contains(j as u64) by {
                    if j < i {
                        let k = choose|k: int| 0 <= k < before.len() && before[k] == j as u64;
                        assert(r@[k] == j as u64);
                    } else {
                        assert(r@[before.len() as int] == i as u64);
                    }
                }
            }
        }
        i = i + 1;
    }
    r
}

/// One step of the sender's chunk loop: chunk `index` is sent unless the
/// receiver already holds it, and either way progress `progress` (of the total)
/// is reported after it.
pub struct SendStep {
    pub index: u64,
    pub send: bool,
    pub progress: u64,
}

/// The sender's chunk loop: one step per chunk, in index order; a chunk the
/// skip list marks is not sent, yet its progress is reported like the others.
pub fn send_plan(skip: &Vec<bool>) -> (r: Vec<SendStep>)
    requires
        skip@.len() < u64::MAX,
    ensures
        r@.len() == skip@.len(),
        forall|i: int|
            0 <= i < r@.len() ==> (#[trigger] r@[i]).index == i && r@[i].send == !skip@[i] && r@[i].progress == i + 1,
{
    let mut r: Vec<SendStep> = Vec::new();
    let mut i: usize = 0;
    while i < skip.len()
        invariant
            i <= skip@.len(),
            skip@.len() < u64::MAX,
            r@.len() == i,
            forall|j: int|
                0 <= j < i ==> (#[trigger] r@[j]).index == j && r@[j].send == !skip@[j] && r@[j].progress == j + 1,
        decreases skip@.len() - i,
    {
        r.push(SendStep { index: i as u64, send: !skip[i], progress: i as u64 + 1 });
        i = i + 1;
    }
    r
}

/// The name chunks are compressed under, "transfer", has no extension, so it
/// never rules compression out.
proof fn lemma_transfer_name_compressible()
    ensures
        !crate::transfer::compress::incompressible_name("transfer"@),
{
    reveal_strlit("transfer");
    let t = "transfer"@;
    assert(!t.contains('/')) by {
        if t.contains('/') {
            let k = choose|k: int| 0 <= k < t.len() && t[k] == '/';
            assert(t[k] != '/');
        }
    }
    crate::text::lemma_split_on_no_sep(t, '/');
    let parts = seq![t];
    assert(parts.drop_last() =~= Seq::<Seq<char>>::empty());
    assert(parts.last() == t);
    assert(t.len() == 8);
    assert(!crate::types::skipped_component(t));
    assert(crate::types::kept_components(parts.drop_last()) =~= Seq::<Seq<char>>::empty());
    assert(crate::types::kept_components(parts) =~= seq![t]);
    assert(crate::transfer::compress::file_name_of(t) == Some(t));
    assert(!(exists|i: int| 0 < i < t.len() && t[i] == '.'));
}

/// The end-of-chunks marker.
pub fn eof_frame() -> (f: ChunkFrame)
    ensures
        f.chunk_index == EOF_INDEX,
        f.is_compressed,
        f.data@.len() == 0,
{
    ChunkFrame { chunk_index: EOF_INDEX, is_compressed: true, data: Vec::new() }
}

/// What a sender concludes from the decrypted acknowledgement: success only
/// when it is not empty and its first byte is not 0x01.
pub fn check_ack(ack: &[u8]) -> (r: Result<(), DropWireError>)
    ensures
        r is Err <==> (ack@.len() == 0 || ack@[0] == 1),
        r matches Err(e) ==> e is HashMismatch,
{
    if ack.len() == 0 || ack[0] == 0x01 {
        return Err(DropWireError::HashMismatch);
    }
    Ok(())
}

/// The acknowledgement status byte: 0x00 when the received bytes hash to the
/// announced hash, 0x01 otherwise.
pub fn ack_status(actual: &[u8; 32], expected: &[u8; 32]) -> (s: u8)
    ensures
        s == if actual@ == expected@ { 0u8 } else { 1u8 },
{
    let mut i: usize = 0;
    while i < 32
        invariant
            i <= 32,
            forall|j: int| 0 <= j < i ==> actual@[j] == expected@[j],
        decreases 32 - i,
    {
        if actual[i] != expected[i] {
            return 1;
        }
        i = i + 1;
    }
    assert(actual@ =~= expected@);
    0
}

impl TransferEngine {
    /// The frame that carries chunk `index` with bytes `data`: compressed when
    /// worthwhile (the name "transfer" has no extension, so only the caller's
    /// entropy verdict can rule compression out), then encrypted under the
    /// stream key bound to the index.
    pub fn seal_chunk(&self, index: u64, data: &[u8], sample_high_entropy: bool) -> (r: Result<ChunkFrame, DropWireError>)
        ensures
            r matches Ok(f) ==> f.chunk_index == index && exists|payload: Seq<u8>|
                {
                    &&& f.data@ == #[trigger] aead_seal(self.stream_key@, crate::crypto::stream::chunk_nonce(index), be64(index), payload)
                    &&& (if f.is_compressed {
                        payload == crate::transfer::compress::zstd_compressed(data@, 3)
                    } else {
                        payload == data@
                    })
                },
            r is Err ==> !aead_msg_fits(data@.len()),
            r matches Ok(f) ==> (f.is_compressed <==> (!(data@.len() > 0 && sample_high_entropy)
                && crate::transfer::compress::zstd_compressed(data@, 3).len() < data@.len())),
            r matches Ok(f) ==> (!f.is_compressed || data@.len() <= crate::transfer::compress::DECOMPRESS_LIMIT)
                ==> chunk_plaintext(self.stream_key@, index, f.is_compressed, f.data@) == Some(data@),
    {
        proof {
            lemma_transfer_name_compressible();
        }
        let (comp, is_comp) = maybe_compress(data, "transfer", sample_high_entropy);
        match encrypt_chunk(&self.stream_key, index, comp.as_slice()) {
            Ok(enc) => Ok(ChunkFrame { chunk_index: index, is_compressed: is_comp, data: enc }),
            Err(e) => Err(e),
        }
    }

    /// The plaintext of a received chunk frame: decrypted under the stream key
    /// and the frame's index, then decompressed when the frame says so.
    pub fn open_chunk(&self, frame: &ChunkFrame) -> (r: Result<Vec<u8>, DropWireError>)
        ensures
            r matches Ok(p) ==> chunk_plaintext(self.stream_key@, frame.chunk_index, frame.is_compressed, frame.data@)
                == Some(p@),
            r is Err <==> chunk_plaintext(self.stream_key@, frame.chunk_index, frame.is_compressed, frame.data@) is None,
            r matches Err(e) ==> (if aead_open(self.stream_key@, crate::crypto::stream::chunk_nonce(frame.chunk_index), be64(frame.chunk_index), frame.data@) is None {
                e is Crypto
            } else {
                e is Protocol
            }),
    {
        let comp = decrypt_chunk(&self.stream_key, frame.chunk_index, frame.data.as_slice())?;
        if frame.is_compressed {
            decompress(comp.as_slice())
        } else {
            Ok(comp)
        }
    }
}

/// Opening inverts sealing: a frame whose data decrypts to `payload` carries
/// `payload` itself when it is not marked compressed, and the text `payload`
/// decompresses to when it is.
pub proof fn lemma_open_inverts_seal(
    key: Seq<u8>,
    index: u64,
    compressed: bool,
    ct: Seq<u8>,
    payload: Seq<u8>,
    data: Seq<u8>,
)
    requires
        aead_open(key, crate::crypto::stream::chunk_nonce(index), be64(index), ct) == Some(payload),
        !compressed ==> payload == data,
        compressed ==> decompressed(payload) == Some(data),
    ensures
        chunk_plaintext(key, index, compressed, ct) == Some(data),
{
}

/// The plaintext a chunk frame carries under a stream key: its data decrypted
/// under the nonce and associated data of its index, then decompressed (at
/// most 20 MiB) when the frame is marked compressed; `None` when either step
/// fails.
pub open spec fn chunk_plaintext(stream_key: Seq<u8>, index: u64, compressed: bool, data: Seq<u8>) -> Option<Seq<u8>> {
    match aead_open(stream_key, crate::crypto::stream::chunk_nonce(index), be64(index), data) {
        None => None,
        Some(c) => if compressed {
            decompressed(c)
        } else {
            Some(c)
        },
    }
}

impl TransferEngine {
    /// Opens a received chunk and checks it against the hash the sender
    /// announced for its index: the plaintext when its BLAKE3 hash matches,
    /// `None` when it does not (the chunk is discarded: neither written nor
    /// marked received), and the error of `open_chunk` when it cannot be opened.
    pub fn accept_chunk(&self, frame: &ChunkFrame, chunk_hashes: &[[u8; 32]]) -> (r: Result<Option<Vec<u8>>, DropWireError>)
        requires
            frame.chunk_index < chunk_hashes@.len(),
        ensures
            r is Err <==> chunk_plaintext(self.stream_key@, frame.chunk_index, frame.is_compressed, frame.data@) is None,
            r matches Ok(Some(p)) ==> chunk_plaintext(self.stream_key@, frame.chunk_index, frame.is_compressed, frame.data@)
                == Some(p@) && blake3_hash_spec(p@) == chunk_hashes@[frame.chunk_index as int]@,
            r matches Ok(None) ==> chunk_plaintext(self.stream_key@, frame.chunk_index, frame.is_compressed, frame.data@)
                matches Some(p) && blake3_hash_spec(p) != chunk_hashes@[frame.chunk_index as int]@,
    {
        let plaintext = self.open_chunk(frame)?;
        if chunk_matches(plaintext.as_slice(), &chunk_hashes[frame.chunk_index as usize]) {
            Ok(Some(plaintext))
        } else {
            Ok(None)
        }
    }
}

/// The top-level name of a transfer: the first path segment of its first file,
/// or "empty_transfer" when there are no files.
pub open spec fn root_name_spec(first_file: Option<Seq<char>>) -> Seq<char> {
    match first_file {
        Some(p) => split_on(p, '/')[0],
        None => "empty_transfer"@,
    }
}

/// The top-level name of the announced transfer.
pub fn root_name(manifest: &TransferManifest) -> (r: String)
    ensures
        r@ == root_name_spec(if manifest.files@.len() > 0 {
            Some(manifest.files@[0].relative_path@)
        } else {
            None
        }),
{
    if manifest.files.len() > 0 {
        let first = chars_of(manifest.files[0].relative_path.as_str());
        let parts = split_chars(&first, '/');
        proof {
            crate::text::lemma_split_on_nonempty(first@, '/');
            assert(parts@.map_values(|p: Vec<char>| p@)[0] == parts@[0]@);
        }
        string_from_chars(parts[0].as_slice())
    } else {
        String::from_str("empty_transfer")
    }
}

/// The name of the resume state file: a dot, the root name, `.dwstate`.
pub fn state_file_name(root: &str) -> (r: String)
    ensures
        r@ == "."@ + root@ + ".dwstate"@,
{
    String::from_str(".").concat(root).concat(".dwstate")
}

/// Whether a saved state belongs to the announced transfer: the same overall
/// hash and the same number of chunks.
pub fn state_matches(state: &PartialState, expected_hash: &[u8; 32], total_chunks: u64) -> (b: bool)
    ensures
        b == (state.expected_hash@ == expected_hash@ && state.total_chunks == total_chunks),
{
    if state.total_chunks != total_chunks {
        return false;
    }
    ack_status(&state.expected_hash, expected_hash) == 0
}

/// Where a receiver stands in the chunk loop.
pub struct ReceiveProgress {
    pub total_chunks: u64,
    pub chunks_received: u64,
    pub eof_received: bool,
}

/// What to do with a received chunk frame.
pub enum FrameAction {
    /// The end-of-chunks marker.
    Eof,
    /// An index past the last chunk: ignored.
    Ignore,
    /// Decrypt, store and count the chunk.
    Store(u64),
}

impl ReceiveProgress {
    /// The loop starts with the chunks already on disk counted.
    pub fn new(total_chunks: u64, already: u64) -> (p: Self)
        ensures
            p.total_chunks == total_chunks,
            p.chunks_received == already,
            !p.eof_received,
    {
        ReceiveProgress { total_chunks, chunks_received: already, eof_received: false }
    }

    /// The loop ends once as many chunks as the transfer has were counted and
    /// the end marker arrived.
    pub fn is_done(&self) -> (b: bool)
        ensures
            b == (self.chunks_received == self.total_chunks && self.eof_received),
    {
        self.chunks_received == self.total_chunks && self.eof_received
    }

    /// Classifies a frame by its index; the end marker is remembered.
    pub fn on_frame(&mut self, chunk_index: u64) -> (a: FrameAction)
        ensures
            chunk_index == EOF_INDEX ==> a is Eof && final(self).eof_received,
            chunk_index != EOF_INDEX && chunk_index >= old(self).total_chunks ==> a is Ignore
                && final(self).eof_received == old(self).eof_received,
            chunk_index != EOF_INDEX && chunk_index < old(self).total_chunks ==> a == FrameAction::Store(chunk_index)
                && final(self).eof_received == old(self).eof_received,
            final(self).total_chunks == old(self).total_chunks,
            final(self).chunks_received == old(self).chunks_received,
    {
        if chunk_index == EOF_INDEX {
            self.eof_received = true;
            return FrameAction::Eof;
        }
        if chunk_index >= self.total_chunks {
            return FrameAction::Ignore;
        }
        FrameAction::Store(chunk_index)
    }

    /// Counts a stored chunk (a chunk sent twice is counted twice, as the
    /// protocol does).
    pub fn record_stored(&mut self)
        requires
            old(self).chunks_received < u64::MAX,
        ensures
            final(self).chunks_received == old(self).chunks_received + 1,
            final(self).total_chunks == old(self).total_chunks,
            final(self).eof_received == old(self).eof_received,
    {
        self.chunks_received = self.chunks_received + 1;
    }
}

} // verus!
