//! The received-chunk bitmap, held in a `bitvec` bit-vector of bytes in
//! least-significant-bit-first order.
use vstd::prelude::*;
use bitvec::order::Lsb0;
use bitvec::vec::BitVec;

verus! {

/// A `bitvec` bit-vector of bytes, least significant bit first. Verus cannot
/// take the declaration of the crate's type, whose parameters are bound by the
/// crate's own traits, so the vector is held in this opaque cell.
#[verifier::external_body]
pub struct ChunkBitmap {
    inner: BitVec<u8, Lsb0>,
}

/// The bits a bit-vector holds, in index order.
pub uninterp spec fn bitmap_bits(v: ChunkBitmap) -> Seq<bool>;

/// Whether bit 0 of a bit-vector is the lowest bit of its first storage byte.
pub uninterp spec fn bitmap_aligned(v: ChunkBitmap) -> bool;

/// The most bits a bit-vector can hold.
pub open spec fn max_bits() -> nat {
    (usize::MAX >> 3) as nat
}

/// Bit `i` of `bytes`, counting from the lowest bit of the first byte.
pub open spec fn lsb0_bit(bytes: Seq<u8>, i: int) -> bool {
    (bytes[i / 8] >> ((i % 8) as u8)) & 1u8 == 1u8
}

/// All the bits of `bytes`, lowest bit of the first byte first.
pub open spec fn lsb0_bits(bytes: Seq<u8>) -> Seq<bool> {
    Seq::new(8 * bytes.len(), |i: int| lsb0_bit(bytes, i))
}

/// `bytes` is a packing of `bits`: just enough bytes, and each bit in place.
/// The bits past the end of `bits` in the last byte may hold anything.
pub open spec fn packs(bytes: Seq<u8>, bits: Seq<bool>) -> bool {
    &&& bytes.len() == (bits.len() + 7) / 8
    &&& forall|i: int| 0 <= i < bits.len() ==> #[trigger] lsb0_bit(bytes, i) == bits[i]
}

/// The number of set bits.
pub open spec fn count_set(bits: Seq<bool>) -> nat
    decreases bits.len(),
{
    if bits.len() == 0 {
        0
    } else {
        count_set(bits.drop_last()) + if bits.last() {
            1nat
        } else {
            0nat
        }
    }
}

/// An empty bit-vector (`BitVec::new`).
#[verifier::external_body]
pub(crate) fn bitmap_new() -> (v: ChunkBitmap)
    ensures
        bitmap_bits(v) == Seq::<bool>::empty(),
        bitmap_aligned(v),
{
    ChunkBitmap { inner: BitVec::new() }
}

/// `BitVec::resize`: grows with copies of `value`, or cuts down to `new_len`.
#[verifier::external_body]
pub(crate) fn bitmap_resize(v: &mut ChunkBitmap, new_len: usize, value: bool)
    requires
        new_len <= max_bits(),
    ensures
        bitmap_bits(*final(v)) == if new_len > bitmap_bits(*old(v)).len() {
            bitmap_bits(*old(v)) + Seq::new(
                (new_len - bitmap_bits(*old(v)).len()) as nat,
                |i: int| value,
            )
        } else {
            bitmap_bits(*old(v)).take(new_len as int)
        },
        bitmap_aligned(*final(v)) == bitmap_aligned(*old(v)),
{
    v.inner.resize(new_len, value)
}

/// `BitVec::truncate`: keeps the first `new_len` bits, if there are more.
#[verifier::external_body]
pub(crate) fn bitmap_truncate(v: &mut ChunkBitmap, new_len: usize)
    ensures
        bitmap_bits(*final(v)) == if new_len < bitmap_bits(*old(v)).len() {
            bitmap_bits(*old(v)).take(new_len as int)
        } else {
            bitmap_bits(*old(v))
        },
        bitmap_aligned(*final(v)) == bitmap_aligned(*old(v)),
{
    v.inner.truncate(new_len)
}

/// `BitVec::from_vec`: every bit of the bytes, lowest bit first.
#[verifier::external_body]
pub(crate) fn bitmap_from_vec(bytes: Vec<u8>) -> (v: ChunkBitmap)
    requires
        8 * bytes@.len() <= max_bits(),
    ensures
        bitmap_bits(v) == lsb0_bits(bytes@),
        bitmap_aligned(v),
{
    ChunkBitmap { inner: BitVec::from_vec(bytes) }
}

/// `BitVec::from_slice`: every bit of the bytes, lowest bit first.
#[verifier::external_body]
pub(crate) fn bitmap_from_slice(bytes: &[u8]) -> (v: ChunkBitmap)
    requires
        8 * bytes@.len() <= max_bits(),
    ensures
        bitmap_bits(v) == lsb0_bits(bytes@),
        bitmap_aligned(v),
{
    ChunkBitmap { inner: BitVec::from_slice(bytes) }
}

/// `BitSlice::set`: writes one bit.
#[verifier::external_body]
pub(crate) fn bitmap_set(v: &mut ChunkBitmap, index: usize, value: bool)
    requires
        index < bitmap_bits(*old(v)).len(),
    ensures
        bitmap_bits(*final(v)) == bitmap_bits(*old(v)).update(index as int, value),
        bitmap_aligned(*final(v)) == bitmap_aligned(*old(v)),
{
    v.inner.set(index, value)
}

/// Indexing a bit-vector: reads one bit.
#[verifier::external_body]
pub(crate) fn bitmap_get(v: &ChunkBitmap, index: usize) -> (b: bool)
    requires
        index < bitmap_bits(*v).len(),
    ensures
        b == bitmap_bits(*v)[index as int],
{
    v.inner[index]
}

/// `BitVec::len`: the number of bits.
#[verifier::external_body]
pub(crate) fn bitmap_len(v: &ChunkBitmap) -> (n: usize)
    ensures
        n == bitmap_bits(*v).len(),
{
    v.inner.len()
}

/// `BitSlice::all`: whether every bit is set (true when there are none).
#[verifier::external_body]
pub(crate) fn bitmap_all(v: &ChunkBitmap) -> (b: bool)
    ensures
        b == (forall|i: int| 0 <= i < bitmap_bits(*v).len() ==> #[trigger] bitmap_bits(*v)[i]),
{
    v.inner.all()
}

/// `BitSlice::count_ones`: the number of set bits.
#[verifier::external_body]
pub(crate) fn bitmap_count_ones(v: &ChunkBitmap) -> (n: usize)
    ensures
        n == count_set(bitmap_bits(*v)),
{
    v.inner.count_ones()
}

/// `BitVec::clone`: the same bits, laid out the same way.
#[verifier::external_body]
pub(crate) fn bitmap_clone(v: &ChunkBitmap) -> (c: ChunkBitmap)
    ensures
        bitmap_bits(c) == bitmap_bits(*v),
        bitmap_aligned(c) == bitmap_aligned(*v),
{
    ChunkBitmap { inner: v.inner.clone() }
}

/// `BitVec::force_align`: moves the live bits so that they start at bit 0 of
/// the first storage byte; the bits themselves are unchanged.
#[verifier::external_body]
pub(crate) fn bitmap_force_align(v: &mut ChunkBitmap)
    ensures
        bitmap_bits(*final(v)) == bitmap_bits(*old(v)),
        bitmap_aligned(*final(v)),
{
    v.inner.force_align()
}

/// `BitVec::into_vec`: the storage bytes that hold live bits. When the bits
/// start at bit 0 of the first byte, these bytes pack the bits; the values of
/// the unused bits of the last byte are not specified by the crate.
#[verifier::external_body]
pub(crate) fn bitmap_into_vec(v: ChunkBitmap) -> (bytes: Vec<u8>)
    ensures
        bitmap_aligned(v) ==> packs(bytes@, bitmap_bits(v)),
{
    v.inner.into_vec()
}

} // verus!
