//! The resume state of a receiver: which chunks already sit on disk, and the
//! `.dwstate` byte layout it is saved in.
use vstd::prelude::*;
use crate::bitmap::{count_set, bitmap_count_ones, bitmap_get, ChunkBitmap, bitmap_bits, bitmap_aligned, max_bits, lsb0_bits, packs, bitmap_new, bitmap_resize, bitmap_clone, bitmap_force_align, bitmap_into_vec, bitmap_from_vec, bitmap_truncate, bitmap_set, bitmap_len, bitmap_all};
use crate::codec::{copy_range, be32, be64, from_be32, from_be64, push_all, push_be32, push_be64, read_be32, read_be64, lemma_be32_roundtrip, lemma_be64_roundtrip};
use crate::error::{DropWireError, protocol_error};

verus! {

/// The most chunks a saved state may describe (about one terabyte of data).
pub const MAX_STATE_CHUNKS: u64 = 1_000_000;

/// What a receiver remembers between attempts at one transfer.
pub struct PartialState {
    pub file_path: String,
    pub expected_hash: [u8; 32],
    pub chunk_hashes: Vec<[u8; 32]>,
    pub total_chunks: u64,
    pub received: ChunkBitmap,
}

/// The content of a `PartialState`, without the path it is saved at.
pub struct ResumeView {
    pub expected_hash: Seq<u8>,
    pub total_chunks: u64,
    pub chunk_hashes: Seq<Seq<u8>>,
    pub received: Seq<bool>,
}

/// The byte views of a list of 32-byte hashes.
pub open spec fn hash_views(hs: Seq<[u8; 32]>) -> Seq<Seq<u8>> {
    hs.map_values(|h: [u8; 32]| h@)
}

/// The hashes written one after another.
pub open spec fn concat_hashes(hs: Seq<Seq<u8>>) -> Seq<u8>
    decreases hs.len(),
{
    if hs.len() == 0 {
        Seq::empty()
    } else {
        concat_hashes(hs.drop_last()) + hs.last()
    }
}

/// The `count` 32-byte hashes stored one after another from `off` on.
pub open spec fn split_hashes(bytes: Seq<u8>, off: int, count: nat) -> Seq<Seq<u8>> {
    Seq::new(count, |i: int| bytes.subrange(off + 32 * i, off + 32 * i + 32))
}

/// The saved layout: the expected hash, the chunk count, every chunk hash,
/// the length of the bitmap and the bitmap.
pub open spec fn state_layout(hash: Seq<u8>, total: u64, hashes: Seq<Seq<u8>>, bitmap: Seq<u8>) -> Seq<
    u8,
> {
    hash + be64(total) + concat_hashes(hashes) + be32(bitmap.len() as u32) + bitmap
}

/// The first `n` bits, or all of them when there are fewer.
pub open spec fn at_most(bits: Seq<bool>, n: int) -> Seq<bool> {
    if n < bits.len() {
        bits.take(n)
    } else {
        bits
    }
}

/// What a saved state decodes to, or `None` when it is refused.
pub open spec fn decode_state(bytes: Seq<u8>) -> Option<ResumeView> {
    if bytes.len() < 40 {
        None
    } else {
        let total = from_be64(bytes.subrange(32, 40));
        let off = 40 + 32 * total;
        if total > MAX_STATE_CHUNKS {
            None
        } else if bytes.len() < off {
            None
        } else if bytes.len() < off + 4 {
            None
        } else {
            let blen = from_be32(bytes.subrange(off, off + 4));
            if bytes.len() < off + 4 + blen {
                None
            } else {
                Some(
                    ResumeView {
                        expected_hash: bytes.subrange(0, 32),
                        total_chunks: total,
                        chunk_hashes: split_hashes(bytes, 40, total as nat),
                        received: at_most(
                            lsb0_bits(bytes.subrange(off + 4, off + 4 + blen)),
                            total as int,
                        ),
                    },
                )
            }
        }
    }
}

/// Appending a hash to a list appends its bytes to the concatenation.
pub proof fn lemma_concat_hashes_push(hs: Seq<Seq<u8>>, h: Seq<u8>)
    ensures
        concat_hashes(hs.push(h)) == concat_hashes(hs) + h,
{
    assert(hs.push(h).drop_last() =~= hs);
}

/// Each hash of the concatenation sits at its own 32-byte slot.
pub proof fn lemma_concat_hashes_len(hs: Seq<Seq<u8>>)
    requires
        forall|i: int| 0 <= i < hs.len() ==> (#[trigger] hs[i]).len() == 32,
    ensures
        concat_hashes(hs).len() == 32 * hs.len(),
        forall|i: int|
            0 <= i < hs.len() ==> concat_hashes(hs).subrange(32 * i, 32 * i + 32) == #[trigger] hs[i],
    decreases hs.len(),
{
    if hs.len() > 0 {
        let init = hs.drop_last();
        lemma_concat_hashes_len(init);
        assert forall|i: int| 0 <= i < hs.len() implies concat_hashes(hs).subrange(
            32 * i,
            32 * i + 32,
        ) == #[trigger] hs[i] by {
            if i < init.len() {
                assert(init[i] == hs[i]);
                assert(concat_hashes(hs).subrange(32 * i, 32 * i + 32) =~= concat_hashes(
                    init,
                ).subrange(32 * i, 32 * i + 32));
            } else {
                assert(concat_hashes(hs).subrange(32 * i, 32 * i + 32) =~= hs.last());
            }
        }
    }
}

/// The 32 bytes at `off` as a hash.
pub fn hash_at(bytes: &[u8], off: usize) -> (h: [u8; 32])
    requires
        off + 32 <= bytes@.len(),
    ensures
        h@ == bytes@.subrange(off as int, off + 32),
{
    let n = bytes.len();
    let mut h = [0u8; 32];
    let mut j: usize = 0;
    while j < 32
        invariant
            j <= 32,
            n == bytes@.len(),
            off + 32 <= bytes@.len(),
            forall|k: int| 0 <= k < j ==> h@[k] == bytes@[off + k],
        decreases 32 - j,
    {
        h[j] = bytes[off + j];
        j = j + 1;
    }
    assert(h@ =~= bytes@.subrange(off as int, off + 32));
    h
}

impl PartialState {
    /// The content of the state.
    pub open spec fn model(&self) -> ResumeView {
        ResumeView {
            expected_hash: self.expected_hash@,
            total_chunks: self.total_chunks,
            chunk_hashes: hash_views(self.chunk_hashes@),
            received: bitmap_bits(self.received),
        }
    }

    /// A state whose bitmap has one bit per chunk.
    pub open spec fn consistent(&self) -> bool {
        &&& bitmap_bits(self.received).len() == self.total_chunks
    }

    /// A fresh state: the given hashes, and no chunk received yet.
    pub fn new(file_path: &str, hash: [u8; 32], chunk_hashes: Vec<[u8; 32]>, total_chunks: u64) -> (s: Self)
        requires
            total_chunks <= max_bits(),
        ensures
            s.file_path@ == file_path@,
            s.expected_hash == hash,
            s.chunk_hashes@ == chunk_hashes@,
            s.total_chunks == total_chunks,
            bitmap_bits(s.received) == Seq::new(total_chunks as nat, |i: int| false),
            s.consistent(),
    {
        let mut received = bitmap_new();
        bitmap_resize(&mut received, total_chunks as usize, false);
        proof {
            assert(Seq::<bool>::empty() + Seq::new(total_chunks as nat, |i: int| false) =~= Seq::new(
                total_chunks as nat,
                |i: int| false,
            ));
        }
        PartialState {
            file_path: file_path.to_string(),
            expected_hash: hash,
            chunk_hashes,
            total_chunks,
            received,
        }
    }
}

impl PartialState {
    /// The saved form of the state (see `state_layout`). A state whose chunk
    /// count is within `MAX_STATE_CHUNKS` and matches its hash list and bitmap
    /// reads back as itself.
    pub fn to_bytes(&self) -> (buf: Vec<u8>)
        ensures
            self.total_chunks <= MAX_STATE_CHUNKS && self.chunk_hashes@.len() == self.total_chunks
                && bitmap_bits(self.received).len() == self.total_chunks ==> decode_state(buf@) == Some(self.model()),
            exists|bitmap: Seq<u8>|
                #![trigger state_layout(self.expected_hash@, self.total_chunks, hash_views(self.chunk_hashes@), bitmap)]
                {
                    &&& packs(bitmap, bitmap_bits(self.received))
                    &&& buf@ == state_layout(
                        self.expected_hash@,
                        self.total_chunks,
                        hash_views(self.chunk_hashes@),
                        bitmap,
                    )
                },
    {
        let mut buf: Vec<u8> = Vec::new();
        push_all(&mut buf, self.expected_hash.as_slice());
        push_be64(&mut buf, self.total_chunks);
        let ghost prefix = buf@;
        let mut i: usize = 0;
        while i < self.chunk_hashes.len()
            invariant
                i <= self.chunk_hashes@.len(),
                buf@ == prefix + concat_hashes(hash_views(self.chunk_hashes@.take(i as int))),
            decreases self.chunk_hashes@.len() - i,
        {
            let h = &self.chunk_hashes[i];
            push_all(&mut buf, h.as_slice());
            proof {
                let hs = self.chunk_hashes@;
                assert(hash_views(hs.take(i + 1)) =~= hash_views(hs.take(i as int)).push(hs[i as int]@));
                lemma_concat_hashes_push(hash_views(hs.take(i as int)), hs[i as int]@);
            }
            i = i + 1;
        }
        assert(self.chunk_hashes@.take(i as int) =~= self.chunk_hashes@);
        let mut aligned = bitmap_clone(&self.received);
        bitmap_force_align(&mut aligned);
        let bits = bitmap_into_vec(aligned);
        let ghost before = buf@;
        push_be32(&mut buf, #[verifier::truncate] (bits.len() as u32));
        push_all(&mut buf, bits.as_slice());
        assert(buf@ =~= state_layout(
            self.expected_hash@,
            self.total_chunks,
            hash_views(self.chunk_hashes@),
            bits@,
        ));
        assert(packs(bits@, bitmap_bits(self.received)));
        proof {
            if self.total_chunks <= MAX_STATE_CHUNKS && self.chunk_hashes@.len() == self.total_chunks
                && bitmap_bits(self.received).len() == self.total_chunks {
                lemma_state_roundtrip(
                    self.expected_hash@,
                    self.total_chunks,
                    hash_views(self.chunk_hashes@),
                    bitmap_bits(self.received),
                    bits@,
                );
            }
        }
        buf
    }

    /// Reads a saved state back; `file_path` is where it was read from.
    /// Refuses (with a protocol error) exactly the inputs `decode_state` refuses:
    /// too short a header, more than `MAX_STATE_CHUNKS` chunks, or a
    /// truncated hash list, bitmap length or bitmap.
    pub fn from_bytes(file_path: &str, bytes: &[u8]) -> (r: Result<Self, DropWireError>)
        requires
            8 * bytes@.len() <= max_bits(),
        ensures
            match r {
                Ok(s) => {
                    &&& decode_state(bytes@) == Some(s.model())
                    &&& s.file_path@ == file_path@
                    &&& bitmap_aligned(s.received)
                },
                Err(e) => decode_state(bytes@) is None && e is Protocol,
            },
    {
        if bytes.len() < 40 {
            return Err(protocol_error("State file too short"));
        }
        let expected_hash = hash_at(bytes, 0);
        let total_chunks = read_be64(bytes, 32);
        if total_chunks > MAX_STATE_CHUNKS {
            return Err(
                protocol_error(
                    "State file corrupted: total_chunks exceeds maximum allowed (1,000,000)",
                ),
            );
        }
        let expected_hashes_size = match total_chunks.checked_mul(32) {
            Some(v) => v as usize,
            None => {
                return Err(protocol_error("State file corrupted: integer overflow"));
            },
        };
        if bytes.len() < 40 + expected_hashes_size {
            return Err(protocol_error("State file truncated at hashes"));
        }
        let mut offset: usize = 40;
        let mut chunk_hashes: Vec<[u8; 32]> = Vec::new();
        let mut k: u64 = 0;
        while k < total_chunks
            invariant
                k <= total_chunks <= MAX_STATE_CHUNKS,
                offset == 40 + 32 * k,
                40 + 32 * total_chunks <= bytes@.len(),
                hash_views(chunk_hashes@) == split_hashes(bytes@, 40, k as nat),
            decreases total_chunks - k,
        {
            let h = hash_at(bytes, offset);
            let ghost before = chunk_hashes@;
            chunk_hashes.push(h);
            proof {
                assert(hash_views(chunk_hashes@) =~= hash_views(before).push(h@));
                assert(hash_views(chunk_hashes@) =~= split_hashes(bytes@, 40, (k + 1) as nat));
            }
            offset = offset + 32;
            k = k + 1;
        }
        if bytes.len() < offset + 4 {
            return Err(protocol_error("State file truncated at bitmap len"));
        }
        let bit_vec_bytes_len = read_be32(bytes, offset) as usize;
        offset = offset + 4;
        if bytes.len() - offset < bit_vec_bytes_len {
            return Err(protocol_error("State file truncated at bitmap"));
        }
        let bits_bytes = copy_range(bytes, offset, offset + bit_vec_bytes_len);
        let mut received = bitmap_from_vec(bits_bytes);
        bitmap_truncate(&mut received, total_chunks as usize);
        let s = PartialState {
            file_path: file_path.to_string(),
            expected_hash,
            chunk_hashes,
            total_chunks,
            received,
        };
        proof {
            assert(s.model().expected_hash =~= bytes@.subrange(0, 32));
        }
        Ok(s)
    }

    /// Records that chunk `chunk_index` is on disk; indices past the end are ignored.
    pub fn mark_received(&mut self, chunk_index: u64)
        requires
            (chunk_index as usize) < (old(self).total_chunks as usize) ==> (chunk_index as usize)
                < bitmap_bits(old(self).received).len(),
        ensures
            final(self).file_path == old(self).file_path,
            final(self).expected_hash == old(self).expected_hash,
            final(self).chunk_hashes == old(self).chunk_hashes,
            final(self).total_chunks == old(self).total_chunks,
            bitmap_bits(final(self).received) == if (chunk_index as usize) < (old(self).total_chunks as usize) {
                bitmap_bits(old(self).received).update(chunk_index as usize as int, true)
            } else {
                bitmap_bits(old(self).received)
            },
            bitmap_aligned(final(self).received) == bitmap_aligned(old(self).received),
    {
        if (chunk_index as usize) < self.total_chunks as usize {
            bitmap_set(&mut self.received, chunk_index as usize, true);
        }
    }

    /// The number of chunks recorded as received.
    pub fn received_count(&self) -> (n: usize)
        ensures
            n == count_set(bitmap_bits(self.received)),
    {
        bitmap_count_ones(&self.received)
    }

    /// Whether chunk `i` is recorded as received.
    pub fn is_received(&self, i: usize) -> (b: bool)
        requires
            i < bitmap_bits(self.received).len(),
        ensures
            b == bitmap_bits(self.received)[i as int],
    {
        bitmap_get(&self.received, i)
    }

    /// The number of bits the bitmap holds.
    pub fn bitmap_len(&self) -> (n: usize)
        ensures
            n == bitmap_bits(self.received).len(),
    {
        crate::bitmap::bitmap_len(&self.received)
    }

    /// Forgets chunk `i` (its bytes on disk no longer match its hash).
    pub fn unmark(&mut self, i: usize)
        requires
            i < bitmap_bits(old(self).received).len(),
        ensures
            final(self).file_path == old(self).file_path,
            final(self).expected_hash == old(self).expected_hash,
            final(self).chunk_hashes == old(self).chunk_hashes,
            final(self).total_chunks == old(self).total_chunks,
            bitmap_bits(final(self).received) == bitmap_bits(old(self).received).update(i as int, false),
            bitmap_aligned(final(self).received) == bitmap_aligned(old(self).received),
    {
        bitmap_set(&mut self.received, i, false);
    }

    /// Keeps a chunk recorded as received only where `on_disk` confirms its
    /// bytes still match its hash; `on_disk[i]` speaks of chunk `i`, and
    /// chunks past its end are left as they are.
    pub fn keep_verified(&mut self, on_disk: &Vec<bool>)
        ensures
            final(self).file_path == old(self).file_path,
            final(self).expected_hash == old(self).expected_hash,
            final(self).chunk_hashes == old(self).chunk_hashes,
            final(self).total_chunks == old(self).total_chunks,
            bitmap_aligned(final(self).received) == bitmap_aligned(old(self).received),
            bitmap_bits(final(self).received).len() == bitmap_bits(old(self).received).len(),
            forall|i: int|
                0 <= i < bitmap_bits(old(self).received).len() ==> #[trigger] bitmap_bits(final(self).received)[i]
                    == (bitmap_bits(old(self).received)[i] && (i < on_disk@.len() ==> on_disk@[i])),
    {
        let n = self.bitmap_len();
        let mut i: usize = 0;
        while i < n
            invariant
                i <= n,
                n == bitmap_bits(old(self).received).len(),
                bitmap_bits(self.received).len() == n,
                self.file_path == old(self).file_path,
                self.expected_hash == old(self).expected_hash,
                self.chunk_hashes == old(self).chunk_hashes,
                self.total_chunks == old(self).total_chunks,
                bitmap_aligned(self.received) == bitmap_aligned(old(self).received),
                forall|j: int|
                    0 <= j < i ==> #[trigger] bitmap_bits(self.received)[j] == (bitmap_bits(old(self).received)[j] && (j
                        < on_disk@.len() ==> on_disk@[j])),
                forall|j: int| i <= j < n ==> #[trigger] bitmap_bits(self.received)[j] == bitmap_bits(old(self).received)[j],
            decreases n - i,
        {
            if i < on_disk.len() && !on_disk[i] && self.is_received(i) {
                self.unmark(i);
            }
            i = i + 1;
        }
    }

    /// Whether every chunk has been received.
    pub fn is_complete(&self) -> (b: bool)
        ensures
            b == (forall|i: int|
                0 <= i < bitmap_bits(self.received).len() ==> #[trigger] bitmap_bits(self.received)[i]),
    {
        bitmap_all(&self.received)
    }
}

/// A saved state reads back as the state that was saved: whatever the unused
/// bits of the bitmap's last byte hold, decoding the saved layout of a
/// consistent state gives its hash, chunk count, chunk hashes and bitmap.
pub proof fn lemma_state_roundtrip(
    hash: Seq<u8>,
    total: u64,
    hashes: Seq<Seq<u8>>,
    received: Seq<bool>,
    bitmap: Seq<u8>,
)
    requires
        hash.len() == 32,
        total <= MAX_STATE_CHUNKS,
        hashes.len() == total,
        forall|i: int| 0 <= i < hashes.len() ==> (#[trigger] hashes[i]).len() == 32,
        received.len() == total,
        packs(bitmap, received),
    ensures
        decode_state(state_layout(hash, total, hashes, bitmap)) == Some(
            ResumeView { expected_hash: hash, total_chunks: total, chunk_hashes: hashes, received },
        ),
{
    let bytes = state_layout(hash, total, hashes, bitmap);
    let c = concat_hashes(hashes);
    lemma_concat_hashes_len(hashes);
    lemma_be64_roundtrip(total);
    let blen = bitmap.len() as u32;
    lemma_be32_roundtrip(blen);
    assert(bitmap.len() < 0x1_0000_0000);
    let off = 40 + 32 * total;
    assert(bytes.subrange(0, 32) =~= hash);
    assert(bytes.subrange(32, 40) =~= be64(total));
    assert(bytes.subrange(off, off + 4) =~= be32(blen));
    assert(bytes.subrange(off + 4, off + 4 + blen) =~= bitmap);
    assert forall|i: int| 0 <= i < total implies #[trigger] split_hashes(bytes, 40, total as nat)[i]
        == hashes[i] by {
        assert(bytes.subrange(40 + 32 * i, 40 + 32 * i + 32) =~= c.subrange(32 * i, 32 * i + 32));
    }
    assert(split_hashes(bytes, 40, total as nat) =~= hashes);
    let lb = lsb0_bits(bitmap);
    assert(lb.len() >= total);
    assert(at_most(lb, total as int) =~= received);
}

} // verus!
