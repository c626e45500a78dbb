//! The virtual layout of a transfer: all files, sorted by path, cut into
//! fixed-size chunks numbered across files; and the hashes of those chunks.
use vstd::prelude::*;
use crate::crypto::{blake3_hash, blake3_hash_spec};
use crate::error::DropWireError;
use crate::types::{FileMetadata, safe_path, safe_path_spec};

verus! {

#[verifier::external_type_specification]
#[verifier::external_body]
pub struct ExHasher(blake3::Hasher);

/// The bytes a BLAKE3 hasher has been fed so far.
pub uninterp spec fn hasher_input(h: blake3::Hasher) -> Seq<u8>;

/// `blake3::Hasher::new`: a hasher that has been fed nothing.
#[verifier::external_body]
pub(crate) fn hasher_new() -> (h: blake3::Hasher)
    ensures
        hasher_input(h) == Seq::<u8>::empty(),
{
    blake3::Hasher::new()
}

/// `blake3::Hasher::update`: feeds more bytes.
#[verifier::external_body]
pub(crate) fn hasher_update(h: &mut blake3::Hasher, input: &[u8])
    ensures
        hasher_input(*final(h)) == hasher_input(*old(h)) + input@,
{
    h.update(input);
}

/// `blake3::Hasher::finalize`: the hash of everything fed so far, the same
/// digest `blake3::hash` gives for those bytes at once (as the crate
/// documents). The hasher is left as it was.
#[verifier::external_body]
pub(crate) fn hasher_finalize(h: &blake3::Hasher) -> (d: [u8; 32])
    ensures
        d@ == blake3_hash_spec(hasher_input(*h)),
{
    h.finalize().into()
}

/// Anything laid out as a run of chunks: a size in bytes and a chunk count.
pub trait ChunkedFile {
    spec fn spec_size(&self) -> u64;

    spec fn spec_chunks(&self) -> u64;

    fn size(&self) -> (s: u64)
        ensures
            s == self.spec_size(),
    ;

    fn chunks(&self) -> (c: u64)
        ensures
            c == self.spec_chunks(),
    ;
}

impl ChunkedFile for FileMetadata {
    open spec fn spec_size(&self) -> u64 {
        self.size
    }

    open spec fn spec_chunks(&self) -> u64 {
        self.chunks
    }

    fn size(&self) -> (s: u64) {
        self.size
    }

    fn chunks(&self) -> (c: u64) {
        self.chunks
    }
}

/// A file found on the sending side, with where it is read from.
pub struct FileEntry {
    pub path: String,
    pub relative_path: String,
    pub size: u64,
    pub chunks: u64,
}

impl ChunkedFile for FileEntry {
    open spec fn spec_size(&self) -> u64 {
        self.size
    }

    open spec fn spec_chunks(&self) -> u64 {
        self.chunks
    }

    fn size(&self) -> (s: u64) {
        self.size
    }

    fn chunks(&self) -> (c: u64) {
        self.chunks
    }
}

/// The number of chunks of a file: one for an empty file, otherwise the size
/// divided by the chunk size, rounded up.
pub open spec fn chunk_count(size: u64, chunk_size: u64) -> u64 {
    if size == 0 {
        1
    } else {
        ((size + chunk_size - 1) / chunk_size as int) as u64
    }
}

/// `chunk_count` in executable form.
pub fn chunks_for_size(size: u64, chunk_size: u64) -> (c: u64)
    requires
        chunk_size > 0,
    ensures
        c == chunk_count(size, chunk_size),
        c >= 1,
{
    if size == 0 {
        1
    } else {
        let q = size / chunk_size;
        let r = size % chunk_size;
        proof {
            assert(size == q * chunk_size + r) by (nonlinear_arith)
                requires
                    q == size / chunk_size,
                    r == size % chunk_size,
                    chunk_size > 0,
            ;
            assert((size + chunk_size - 1) / (chunk_size as int) == if r == 0 {
                q as int
            } else {
                q + 1
            }) by (nonlinear_arith)
                requires
                    size == q * chunk_size + r,
                    0 <= r < chunk_size,
                    chunk_size > 0,
            ;
            assert(r == 0 ==> q >= 1) by (nonlinear_arith)
                requires
                    size == q * chunk_size + r,
                    size > 0,
                    chunk_size > 0,
            ;
            assert(r != 0 ==> q < u64::MAX) by (nonlinear_arith)
                requires
                    size == q * chunk_size + r,
                    0 <= r < chunk_size,
                    size <= u64::MAX,
            ;
        }
        if r == 0 {
            q
        } else {
            q + 1
        }
    }
}

/// The sizes and chunk counts of files, in order.
pub open spec fn layout_of<F: ChunkedFile>(files: Seq<F>) -> Seq<(u64, u64)> {
    files.map_values(|f: F| (f.spec_size(), f.spec_chunks()))
}

/// Which file chunk `index` falls in, and which chunk of that file it is;
/// `None` past the last file.
pub open spec fn locate_spec(layout: Seq<(u64, u64)>, index: int) -> Option<(int, int)>
    decreases layout.len(),
{
    if layout.len() == 0 {
        None
    } else if index < layout[0].1 {
        Some((0, index))
    } else {
        match locate_spec(layout.drop_first(), index - layout[0].1) {
            Some((f, c)) => Some((f + 1, c)),
            None => None,
        }
    }
}

/// The number of bytes chunk `fci` of a file holds: the remainder for a short
/// last chunk, nothing for an empty file, otherwise a full chunk.
pub open spec fn chunk_len_spec(size: u64, chunks: u64, fci: int, chunk_size: u64) -> int {
    if fci == chunks - 1 && size % chunk_size != 0 {
        (size % chunk_size) as int
    } else if size == 0 {
        0
    } else {
        chunk_size as int
    }
}

/// Where a chunk lives: which file, which chunk of it, at which byte offset
/// (when the offset fits in 64 bits), and how many bytes it holds.
pub struct ChunkLocation {
    pub file_index: usize,
    pub file_chunk_index: u64,
    pub byte_offset: Option<u64>,
    pub len: u64,
}

/// Finds the file chunk `index` falls in.
pub fn locate_chunk<F: ChunkedFile>(files: &[F], index: u64, chunk_size: u32) -> (r: Option<ChunkLocation>)
    requires
        chunk_size > 0,
    ensures
        match r {
            Some(loc) => {
                &&& locate_spec(layout_of(files@), index as int) == Some(
                    (loc.file_index as int, loc.file_chunk_index as int),
                )
                &&& loc.file_index < files@.len()
                &&& loc.len == chunk_len_spec(
                    files@[loc.file_index as int].spec_size(),
                    files@[loc.file_index as int].spec_chunks(),
                    loc.file_chunk_index as int,
                    chunk_size as u64,
                )
                &&& loc.byte_offset == if loc.file_chunk_index * chunk_size <= u64::MAX {
                    Some((loc.file_chunk_index * chunk_size) as u64)
                } else {
                    None::<u64>
                }
            },
            None => locate_spec(layout_of(files@), index as int) is None,
        },
{
    let ghost layout = layout_of(files@);
    let mut current: u64 = 0;
    let mut i: usize = 0;
    assert(layout.skip(0) =~= layout);
    while i < files.len()
        invariant
            chunk_size > 0,
            i <= files@.len(),
            layout == layout_of(files@),
            current <= index,
            locate_spec(layout, index as int) == match locate_spec(layout.skip(i as int), index - current) {
                Some((f, c)) => Some((f + i, c)),
                None => None,
            },
        decreases files@.len() - i,
    {
        let f = &files[i];
        let chunks = f.chunks();
        proof {
            assert(layout.skip(i as int)[0] == (files@[i as int].spec_size(), files@[i as int].spec_chunks()));
            assert(layout.skip(i as int).drop_first() =~= layout.skip(i + 1));
        }
        if index - current < chunks {
            let fci = index - current;
            let size = f.size();
            let cs = chunk_size as u64;
            let len: u64 = if fci == chunks - 1 && size % cs != 0 {
                size % cs
            } else if size == 0 {
                0
            } else {
                cs
            };
            let byte_offset = fci.checked_mul(cs);
            return Some(ChunkLocation { file_index: i, file_chunk_index: fci, byte_offset, len });
        }
        current = current + chunks;
        i = i + 1;
    }
    proof {
        assert(layout.skip(i as int).len() == 0);
    }
    None
}

/// The number of chunks of the first `f` files.
pub open spec fn chunks_before(layout: Seq<(u64, u64)>, f: int) -> int
    decreases f,
{
    if f <= 0 || layout.len() == 0 {
        0
    } else {
        layout[0].1 + chunks_before(layout.drop_first(), f - 1)
    }
}

/// Chunks are numbered on across files: chunk `c` of file `f` is chunk
/// `chunks_before(f) + c` of the transfer, and a chunk number names only that
/// chunk.
pub proof fn lemma_chunk_numbering(layout: Seq<(u64, u64)>, index: int, f: int, c: int)
    ensures
        (0 <= f < layout.len() && 0 <= c < layout[f].1) ==> locate_spec(layout, chunks_before(layout, f) + c)
            == Some((f, c)),
        0 <= index && locate_spec(layout, index) == Some((f, c)) ==> {
            &&& 0 <= f < layout.len()
            &&& 0 <= c < layout[f].1
            &&& index == chunks_before(layout, f) + c
        },
    decreases layout.len(),
{
    if layout.len() > 0 {
        let rest = layout.drop_first();
        lemma_chunk_numbering(rest, index - layout[0].1, f - 1, c);
        if f > 0 && f < layout.len() {
            assert(rest[f - 1] == layout[f]);
        }
        if locate_spec(layout, index) == Some((f, c)) && index >= layout[0].1 {
            assert(locate_spec(rest, index - layout[0].1) == Some((f - 1, c)));
            assert(rest[f - 1] == layout[f]);
        }
    }
}

/// The receiver lays chunks out as the sender does: metadata that carries
/// each file's size and chunk count (what `Chunker::get_metadata` gives) has
/// the sender's layout, so a chunk number locates the same file and chunk on
/// both sides.
pub proof fn lemma_layouts_agree(files: Seq<FileEntry>, meta: Seq<FileMetadata>)
    requires
        meta.len() == files.len(),
        forall|i: int|
            0 <= i < meta.len() ==> (#[trigger] meta[i]).size == files[i].size && meta[i].chunks == files[i].chunks,
    ensures
        layout_of(files) == layout_of(meta),
{
    assert(layout_of(files) =~= layout_of(meta));
}

/// A file is covered exactly by its chunks: every chunk but the last is full,
/// and the last holds what remains, at least one byte and at most a chunk.
pub proof fn lemma_chunks_tile_file(size: u64, chunk_size: u64)
    requires
        chunk_size > 0,
        size > 0,
    ensures
        chunk_count(size, chunk_size) >= 1,
        (chunk_count(size, chunk_size) - 1) * chunk_size + chunk_len_spec(
            size,
            chunk_count(size, chunk_size),
            chunk_count(size, chunk_size) - 1,
            chunk_size,
        ) == size,
        0 < chunk_len_spec(size, chunk_count(size, chunk_size), chunk_count(size, chunk_size) - 1, chunk_size)
            <= chunk_size,
        forall|fci: int|
            0 <= fci < chunk_count(size, chunk_size) - 1 ==> #[trigger] chunk_len_spec(
                size,
                chunk_count(size, chunk_size),
                fci,
                chunk_size,
            ) == chunk_size,
{
    let q = size / chunk_size;
    let r = size % chunk_size;
    assert(size == q * chunk_size + r) by (nonlinear_arith)
        requires
            q == size / chunk_size,
            r == size % chunk_size,
            chunk_size > 0,
    ;
    assert((size + chunk_size - 1) / (chunk_size as int) == if r == 0 {
        q as int
    } else {
        q + 1
    }) by (nonlinear_arith)
        requires
            size == q * chunk_size + r,
            0 <= r < chunk_size,
            chunk_size > 0,
    ;
    assert(r == 0 ==> q >= 1) by (nonlinear_arith)
        requires
            size == q * chunk_size + r,
            size > 0,
            chunk_size > 0,
    ;
    assert(r != 0 ==> q < u64::MAX) by (nonlinear_arith)
        requires
            size == q * chunk_size + r,
            0 <= r < chunk_size,
            size <= u64::MAX,
    ;
    let n = chunk_count(size, chunk_size);
    assert(n == if r == 0 {
        q
    } else {
        (q + 1) as u64
    });
    assert(q * chunk_size == (q - 1) * chunk_size + chunk_size) by (nonlinear_arith);
}

/// Characters compared as `String`'s order compares them (UTF-8 byte order is
/// code point order): the shorter text first when one is a prefix of the other.
pub open spec fn lex_le(a: Seq<char>, b: Seq<char>) -> bool
    decreases a.len(),
{
    if a.len() == 0 {
        true
    } else if b.len() == 0 {
        false
    } else if a[0] != b[0] {
        (a[0] as int) < (b[0] as int)
    } else {
        lex_le(a.drop_first(), b.drop_first())
    }
}

/// Any two texts are ordered one way or the other.
pub proof fn lemma_lex_le_total(a: Seq<char>, b: Seq<char>)
    ensures
        lex_le(a, b) || lex_le(b, a),
    decreases a.len(),
{
    if a.len() > 0 && b.len() > 0 {
        if a[0] == b[0] {
            lemma_lex_le_total(a.drop_first(), b.drop_first());
        } else {
            assert((a[0] as int) != (b[0] as int));
        }
    }
}

/// The order is transitive.
pub proof fn lemma_lex_le_trans(a: Seq<char>, b: Seq<char>, c: Seq<char>)
    requires
        lex_le(a, b),
        lex_le(b, c),
    ensures
        lex_le(a, c),
    decreases a.len(),
{
    if a.len() > 0 && b.len() > 0 && c.len() > 0 && a[0] == b[0] && b[0] == c[0] {
        lemma_lex_le_trans(a.drop_first(), b.drop_first(), c.drop_first());
    }
}

/// Files in ascending order of relative path.
pub open spec fn sorted_by_path(files: Seq<FileEntry>) -> bool {
    forall|i: int, j: int|
        0 <= i < j < files.len() ==> lex_le(#[trigger] files[i].relative_path@, #[trigger] files[j].relative_path@)
}

/// `slice::sort_by` comparing relative paths: the same files, in ascending
/// order of relative path (a stable sort, so equal paths keep their order,
/// which is not stated here).
#[verifier::external_body]
pub(crate) fn sort_by_relative_path(files: &mut Vec<FileEntry>)
    ensures
        final(files)@.to_multiset() == old(files)@.to_multiset(),
        sorted_by_path(final(files)@),
{
    files.sort_by(|a, b| a.relative_path.cmp(&b.relative_path));
}

/// The files in the order a transfer lays them out: by relative path.
pub fn sort_files(files: Vec<FileEntry>) -> (sorted: Vec<FileEntry>)
    ensures
        sorted@.to_multiset() == files@.to_multiset(),
        sorted_by_path(sorted@),
{
    let mut sorted = files;
    sort_by_relative_path(&mut sorted);
    sorted
}

/// The chunk hashes and the running hash of all bytes, as files are read.
pub struct ChunkHasher {
    pub hasher: blake3::Hasher,
    pub chunk_hashes: Vec<[u8; 32]>,
}

impl ChunkHasher {
    /// Nothing read yet.
    pub fn new() -> (h: Self)
        ensures
            hasher_input(h.hasher) == Seq::<u8>::empty(),
            h.chunk_hashes@ == Seq::<[u8; 32]>::empty(),
    {
        ChunkHasher { hasher: hasher_new(), chunk_hashes: Vec::new() }
    }

    /// An empty file: one chunk, the hash of no bytes.
    pub fn add_empty_file(&mut self)
        ensures
            hasher_input(final(self).hasher) == hasher_input(old(self).hasher),
            final(self).chunk_hashes@.len() == old(self).chunk_hashes@.len() + 1,
            final(self).chunk_hashes@.drop_last() == old(self).chunk_hashes@,
            final(self).chunk_hashes@.last()@ == blake3_hash_spec(Seq::empty()),
    {
        let empty: Vec<u8> = Vec::new();
        let h = blake3_hash(empty.as_slice());
        self.chunk_hashes.push(h);
        hasher_update(&mut self.hasher, empty.as_slice());
        proof {
            assert(hasher_input(self.hasher) =~= hasher_input(old(self).hasher));
        }
    }

    /// One read of a file: its bytes join the running hash, and its own hash
    /// is the next chunk hash.
    pub fn add_read(&mut self, data: &[u8])
        ensures
            hasher_input(final(self).hasher) == hasher_input(old(self).hasher) + data@,
            final(self).chunk_hashes@ == old(self).chunk_hashes@.push(final(self).chunk_hashes@.last()),
            final(self).chunk_hashes@.last()@ == blake3_hash_spec(data@),
    {
        hasher_update(&mut self.hasher, data);
        let h = blake3_hash(data);
        self.chunk_hashes.push(h);
    }

    /// Bytes that join the running hash only.
    pub fn add_bytes(&mut self, data: &[u8])
        ensures
            hasher_input(final(self).hasher) == hasher_input(old(self).hasher) + data@,
            final(self).chunk_hashes@ == old(self).chunk_hashes@,
    {
        hasher_update(&mut self.hasher, data);
    }

    /// The hash of every byte fed so far.
    pub fn overall(&self) -> (h: [u8; 32])
        ensures
            h@ == blake3_hash_spec(hasher_input(self.hasher)),
    {
        hasher_finalize(&self.hasher)
    }
}

/// Total bytes and total chunks of files.
pub open spec fn total_size_of(files: Seq<FileEntry>) -> int
    decreases files.len(),
{
    if files.len() == 0 {
        0
    } else {
        total_size_of(files.drop_last()) + files.last().size
    }
}

/// The sum of the chunk counts.
pub open spec fn total_chunks_of<F: ChunkedFile>(files: Seq<F>) -> int
    decreases files.len(),
{
    if files.len() == 0 {
        0
    } else {
        total_chunks_of(files.drop_last()) + files.last().spec_chunks()
    }
}

/// A file to send, found on disk, with its chunk count under `chunk_size`.
pub fn file_entry(path: String, relative_path: String, size: u64, chunk_size: u64) -> (e: FileEntry)
    requires
        chunk_size > 0,
    ensures
        e.path == path,
        e.relative_path == relative_path,
        e.size == size,
        e.chunks == chunk_count(size, chunk_size),
{
    let chunks = chunks_for_size(size, chunk_size);
    FileEntry { path, relative_path, size, chunks }
}

/// The sending side's view of a transfer.
pub struct Chunker {
    pub files: Vec<FileEntry>,
    pub total_size: u64,
    pub total_chunks: u64,
    pub chunk_hashes: Vec<[u8; 32]>,
    pub overall_hash: [u8; 32],
    pub chunk_size: u32,
}

/// Sums the sizes and chunk counts; `None` when a sum overflows 64 bits.
fn sum_sizes(files: &Vec<FileEntry>) -> (r: Option<(u64, u64)>)
    ensures
        r matches Some((s, c)) ==> s == total_size_of(files@) && c == total_chunks_of(files@),
        r is None ==> total_size_of(files@) > u64::MAX || total_chunks_of(files@) > u64::MAX,
{
    let mut s: u64 = 0;
    let mut c: u64 = 0;
    let mut i: usize = 0;
    while i < files.len()
        invariant
            i <= files@.len(),
            s == total_size_of(files@.take(i as int)),
            c == total_chunks_of(files@.take(i as int)),
        decreases files@.len() - i,
    {
        proof {
            assert(files@.take(i + 1).drop_last() =~= files@.take(i as int));
            lemma_totals_prefix_mono(files@, i + 1);
        }
        let f = &files[i];
        let ns = s.checked_add(f.size);
        let nc = c.checked_add(f.chunks);
        match (ns, nc) {
            (Some(a), Some(b)) => {
                s = a;
                c = b;
            },
            _ => {
                return None;
            },
        }
        i = i + 1;
    }
    assert(files@.take(i as int) =~= files@);
    Some((s, c))
}

/// Totals never shrink as files are added.
proof fn lemma_totals_prefix_mono(files: Seq<FileEntry>, k: int)
    requires
        0 <= k <= files.len(),
    ensures
        total_size_of(files.take(k)) <= total_size_of(files),
        total_chunks_of(files.take(k)) <= total_chunks_of(files),
    decreases files.len(),
{
    if k < files.len() {
        assert(files.drop_last().take(k) =~= files.take(k));
        lemma_totals_prefix_mono(files.drop_last(), k);
    } else {
        assert(files.take(k) =~= files);
    }
}

impl Chunker {
    /// Puts a transfer together from the files found (sorted here by relative
    /// path) and their hashes. With no file at all, the transfer is one empty
    /// chunk. `None` when the totals overflow 64 bits.
    pub fn assemble(files: Vec<FileEntry>, hashing: ChunkHasher, chunk_size: u32) -> (r: Option<Self>)
        ensures
            r is None <==> total_size_of(files@) > u64::MAX || total_chunks_of(files@) > u64::MAX,
            r matches Some(c) ==> {
                &&& c.files@.to_multiset() == files@.to_multiset()
                &&& sorted_by_path(c.files@)
                &&& c.total_size == total_size_of(files@)
                &&& c.total_chunks == if files@.len() == 0 { 1 } else { total_chunks_of(files@) }
                &&& c.chunk_hashes@ == if files@.len() == 0 {
                    hashing.chunk_hashes@.push(c.chunk_hashes@.last())
                } else {
                    hashing.chunk_hashes@
                }
                &&& files@.len() == 0 ==> c.chunk_hashes@.last()@ == blake3_hash_spec(Seq::empty())
                &&& c.overall_hash@ == blake3_hash_spec(hasher_input(hashing.hasher))
                &&& c.chunk_size == chunk_size
            },
    {
        let (total_size, total_chunks) = match sum_sizes(&files) {
            Some(t) => t,
            None => {
                proof {
                    lemma_totals_prefix_mono(files@, files@.len() as int);
                }
                return None;
            },
        };
        let mut files = files;
        let ghost orig = files@;
        sort_by_relative_path(&mut files);
        let mut chunk_hashes = hashing.chunk_hashes;
        let mut total_chunks = total_chunks;
        if files.len() == 0 {
            let empty: Vec<u8> = Vec::new();
            chunk_hashes.push(blake3_hash(empty.as_slice()));
            total_chunks = 1;
        }
        proof {
            if orig.len() != 0 {
                assert(orig.to_multiset().len() == orig.len()) by {
                    orig.to_multiset_ensures();
                }
                files@.to_multiset_ensures();
            } else {
                orig.to_multiset_ensures();
                files@.to_multiset_ensures();
            }
        }
        let overall_hash = hasher_finalize(&hashing.hasher);
        Some(Chunker { files, total_size, total_chunks, chunk_hashes, overall_hash, chunk_size })
    }

    /// The number of chunks.
    pub fn total_chunks(&self) -> (n: u64)
        ensures
            n == self.total_chunks,
    {
        self.total_chunks
    }

    /// The number of bytes.
    pub fn total_size(&self) -> (n: u64)
        ensures
            n == self.total_size,
    {
        self.total_size
    }

    /// The hash of all bytes, file after file.
    pub fn blake3_hash(&self) -> (h: [u8; 32])
        ensures
            h == self.overall_hash,
    {
        self.overall_hash
    }

    /// The hash of each chunk, in order.
    pub fn chunk_hashes(&self) -> (v: Vec<[u8; 32]>)
        ensures
            v@ == self.chunk_hashes@,
    {
        let mut v: Vec<[u8; 32]> = Vec::new();
        let mut i: usize = 0;
        while i < self.chunk_hashes.len()
            invariant
                i <= self.chunk_hashes@.len(),
                v@ == self.chunk_hashes@.take(i as int),
            decreases self.chunk_hashes@.len() - i,
        {
            v.push(self.chunk_hashes[i]);
            i = i + 1;
            assert(self.chunk_hashes@.take(i as int) =~= self.chunk_hashes@.take(i - 1).push(
                self.chunk_hashes@[i - 1],
            ));
        }
        assert(self.chunk_hashes@.take(i as int) =~= self.chunk_hashes@);
        v
    }

    /// What the receiver is told about each file.
    pub fn get_metadata(&self) -> (m: Vec<FileMetadata>)
        ensures
            m@.len() == self.files@.len(),
            forall|i: int|
                0 <= i < m@.len() ==> (#[trigger] m@[i]).relative_path == self.files@[i].relative_path
                    && m@[i].size == self.files@[i].size && m@[i].chunks == self.files@[i].chunks,
    {
        let mut m: Vec<FileMetadata> = Vec::new();
        let mut i: usize = 0;
        while i < self.files.len()
            invariant
                i <= self.files@.len(),
                m@.len() == i,
                forall|j: int|
                    0 <= j < i ==> (#[trigger] m@[j]).relative_path == self.files@[j].relative_path
                        && m@[j].size == self.files@[j].size && m@[j].chunks == self.files@[j].chunks,
            decreases self.files@.len() - i,
        {
            let f = &self.files[i];
            m.push(FileMetadata { relative_path: f.relative_path.clone(), size: f.size, chunks: f.chunks });
            i = i + 1;
        }
        m
    }

    /// Where the bytes of chunk `index` are read from.
    pub fn plan_read(&self, index: u64) -> (p: ReadPlan)
        requires
            self.chunk_size > 0,
        ensures
            index >= self.total_chunks ==> p is OutOfBounds,
            index < self.total_chunks && self.files@.len() == 0 ==> p is NoFiles,
            index < self.total_chunks && self.files@.len() > 0 ==> match p {
                ReadPlan::Read(loc) => locate_spec(layout_of(self.files@), index as int) == Some(
                    (loc.file_index as int, loc.file_chunk_index as int),
                ) && loc.file_index < self.files@.len() && loc.len == chunk_len_spec(
                    self.files@[loc.file_index as int].size,
                    self.files@[loc.file_index as int].chunks,
                    loc.file_chunk_index as int,
                    self.chunk_size as u64,
                ) && loc.byte_offset == if loc.file_chunk_index * self.chunk_size <= u64::MAX {
                    Some((loc.file_chunk_index * self.chunk_size) as u64)
                } else {
                    None::<u64>
                },
                ReadPlan::Unmapped => locate_spec(layout_of(self.files@), index as int) is None,
                _ => false,
            },
    {
        if index >= self.total_chunks {
            return ReadPlan::OutOfBounds;
        }
        if self.files.len() == 0 {
            return ReadPlan::NoFiles;
        }
        match locate_chunk(self.files.as_slice(), index, self.chunk_size) {
            Some(loc) => ReadPlan::Read(loc),
            None => ReadPlan::Unmapped,
        }
    }
}

/// How to serve a request for a chunk's bytes.
pub enum ReadPlan {
    /// Past the last chunk ("Index out of bounds").
    OutOfBounds,
    /// A transfer without files: the one chunk is empty.
    NoFiles,
    /// Read `len` bytes of the file at the location.
    Read(ChunkLocation),
    /// No file holds the chunk ("Chunk not mapped to any file").
    Unmapped,
}

/// Where received chunks are written: files of the announced layout under a
/// base directory.
pub struct VirtualWriter {
    pub files: Vec<FileMetadata>,
    pub base_dir: String,
    pub chunk_size: u32,
}

/// How to store or check a chunk on the receiving side.
pub enum WritePlan {
    /// Nothing to touch: the transfer has no files.
    Nothing,
    /// The file's announced path is refused.
    BadPath(DropWireError),
    /// The chunk belongs to the file at `relative_path` (already checked by
    /// `safe_path`), `byte_offset` bytes in, and holds `len` bytes.
    At { relative_path: String, byte_offset: Option<u64>, len: u64 },
    /// No file holds the chunk.
    Unmapped,
}

impl VirtualWriter {
    /// A writer for the announced files under `base_dir`.
    pub fn new(base_dir: &str, files: Vec<FileMetadata>, chunk_size: u32) -> (w: Self)
        ensures
            w.base_dir@ == base_dir@,
            w.files == files,
            w.chunk_size == chunk_size,
    {
        VirtualWriter { base_dir: base_dir.to_string(), files, chunk_size }
    }

    /// Where chunk `index` goes, or why it cannot be written.
    pub fn plan_chunk(&self, index: u64) -> (p: WritePlan)
        requires
            self.chunk_size > 0,
        ensures
            self.files@.len() == 0 <==> p is Nothing,
            p is Unmapped ==> locate_spec(layout_of(self.files@), index as int) is None,
            self.files@.len() > 0 && locate_spec(layout_of(self.files@), index as int) is None ==> p is Unmapped,
            p matches WritePlan::BadPath(e) ==> e is Protocol,
            p is BadPath ==> (locate_spec(layout_of(self.files@), index as int) matches Some((f, c)) && 0 <= f < self.files@.len()
                && safe_path_spec(self.files@[f].relative_path@) is None),
            p matches WritePlan::At { relative_path, byte_offset, len } ==> (locate_spec(layout_of(self.files@), index as int) matches Some((f, c)) && {
                &&& 0 <= f < self.files@.len()
                &&& safe_path_spec(self.files@[f].relative_path@) == Some(relative_path@)
                &&& len == chunk_len_spec(self.files@[f].size, self.files@[f].chunks, c, self.chunk_size as u64)
                &&& byte_offset == if c * self.chunk_size <= u64::MAX {
                    Some((c * self.chunk_size) as u64)
                } else {
                    None::<u64>
                }
            }),
    {
        if self.files.len() == 0 {
            return WritePlan::Nothing;
        }
        match locate_chunk(self.files.as_slice(), index, self.chunk_size) {
            Some(loc) => {
                let f = &self.files[loc.file_index];
                match safe_path(f.relative_path.as_str()) {
                    Ok(rel) => {
                        assert(self.files@[loc.file_index as int] == f);
                        WritePlan::At { relative_path: rel, byte_offset: loc.byte_offset, len: loc.len }
                    },
                    Err(e) => {
                        assert(self.files@[loc.file_index as int] == f);
                        WritePlan::BadPath(e)
                    },
                }
            },
            None => WritePlan::Unmapped,
        }
    }
}

/// Whether bytes read back from disk hash to the expected chunk hash.
pub fn chunk_matches(data: &[u8], expected: &[u8; 32]) -> (b: bool)
    ensures
        b == (blake3_hash_spec(data@) == expected@),
{
    let h = blake3_hash(data);
    let mut i: usize = 0;
    while i < 32
        invariant
            i <= 32,
            h@ == blake3_hash_spec(data@),
            forall|j: int| 0 <= j < i ==> h@[j] == expected@[j],
        decreases 32 - i,
    {
        if h[i] != expected[i] {
            return false;
        }
        i = i + 1;
    }
    assert(h@ =~= expected@);
    true
}

} // verus!
