//! Per-chunk zstd compression, skipped for media and archive formats and for
//! data that looks random.
use vstd::prelude::*;
use std::io::Read;
use vstd::string::StringExecFns;
use crate::error::DropWireError;
use crate::text::{chars_of, fold_case, lemma_split_on_no_sep, lower_eq, lower_eq_str, split_chars, split_on, string_from_chars};
use crate::types::{kept_components, skipped_component};

verus! {

/// Extensions of formats that are already compressed.
pub const INCOMPRESSIBLE_EXTS: [&'static str; 20] = [
    "zip", "7z", "gz", "xz", "zst", "rar", "mp4", "mkv", "mov", "webm", "jpg", "jpeg", "png", "gif",
    "webp", "heic", "mp3", "aac", "flac", "ogg",
];

/// The last path component of `name` that names a file, as `Path::file_name`
/// gives it: `None` for no component or a final `..`.
pub open spec fn file_name_of(name: Seq<char>) -> Option<Seq<char>> {
    let kept = kept_components(split_on(name, '/'));
    if kept.len() == 0 || kept.last() == seq!['.', '.'] {
        None
    } else {
        Some(kept.last())
    }
}

/// The extension of a file name, as `Path::extension` gives it: the text after
/// the last `.`, when that dot is not the first character.
pub open spec fn extension_of(file: Seq<char>) -> Option<Seq<char>> {
    if exists|i: int| 0 < i < file.len() && file[i] == '.' {
        let i = choose|i: int|
            0 < i < file.len() && file[i] == '.' && forall|j: int| i < j < file.len() ==> file[j] != '.';
        Some(file.skip(i + 1))
    } else {
        None
    }
}

/// An extension holds no dot: it is what follows the last `.` of the name
/// (never its first character), so `backup.tar.gz` has extension `gz`.
pub proof fn lemma_extension_after_last_dot(file: Seq<char>)
    ensures
        extension_of(file) matches Some(e) ==> !e.contains('.') && exists|i: int|
            0 < i < file.len() && file[i] == '.' && e == #[trigger] file.skip(i + 1),
{
    if exists|i: int| 0 < i < file.len() && file[i] == '.' {
        let i = choose|i: int|
            0 < i < file.len() && file[i] == '.' && forall|j: int| i < j < file.len() ==> file[j] != '.';
        lemma_last_dot_exists(file);
        let e = file.skip(i + 1);
        assert(extension_of(file) == Some(e));
        assert forall|k: int| 0 <= k < e.len() implies e[k] != '.' by {
            assert(e[k] == file[i + 1 + k]);
            assert(i < i + 1 + k < file.len());
        }
    }
}

/// When a name has a dot past its first character, it has a last such dot.
proof fn lemma_last_dot_exists(file: Seq<char>)
    requires
        exists|i: int| 0 < i < file.len() && file[i] == '.',
    ensures
        exists|i: int| 0 < i < file.len() && file[i] == '.' && forall|j: int| i < j < file.len() ==> file[j] != '.',
    decreases file.len(),
{
    if file.last() == '.' {
        let i = file.len() - 1;
        assert(0 < i) by {
            let w = choose|w: int| 0 < w < file.len() && file[w] == '.';
        }
        assert(file[i] == '.');
    } else {
        let w = choose|w: int| 0 < w < file.len() && file[w] == '.';
        let d = file.drop_last();
        assert(d[w] == '.');
        lemma_last_dot_exists(d);
        let i = choose|i: int| 0 < i < d.len() && d[i] == '.' && forall|j: int| i < j < d.len() ==> d[j] != '.';
        assert(file[i] == '.');
        assert forall|j: int| i < j < file.len() implies file[j] != '.' by {
            if j < d.len() {
                assert(d[j] != '.');
            }
        }
    }
}

/// A name made of a non-empty stem, a dot and a dot-free text has that text as
/// its extension, whatever dots the stem holds.
pub proof fn lemma_extension_of_stem_dot(stem: Seq<char>, ext: Seq<char>)
    requires
        stem.len() > 0,
        !ext.contains('.'),
    ensures
        extension_of(stem + seq!['.'] + ext) == Some(ext),
{
    let f = stem + seq!['.'] + ext;
    let d = stem.len() as int;
    assert(f[d] == '.');
    assert forall|j: int| d < j < f.len() implies f[j] != '.' by {
        assert(f[j] == ext[j - d - 1]);
        if f[j] == '.' {
            assert(ext.contains('.'));
        }
    }
    assert(exists|i: int| 0 < i < f.len() && f[i] == '.');
    let i = choose|i: int|
        0 < i < f.len() && f[i] == '.' && forall|j: int| i < j < f.len() ==> f[j] != '.';
    if i < d {
        assert(f[d] != '.');
    }
    if i > d {
        assert(f[i] == ext[i - d - 1]);
        assert(ext.contains('.'));
    }
    assert(f.skip(d + 1) =~= ext);
}

/// A file name (no `/`) ending in a dot and a listed compressed format's
/// extension, in any case, is left uncompressed: `backup.tar.gz` is a `gz`.
pub proof fn lemma_listed_extension_incompressible(stem: Seq<char>, ext: Seq<char>, k: int)
    requires
        stem.len() > 0,
        ext.len() > 0,
        !ext.contains('.'),
        !(stem + seq!['.'] + ext).contains('/'),
        0 <= k < 20,
        lower_eq(ext, INCOMPRESSIBLE_EXTS@[k]@),
    ensures
        incompressible_name(stem + seq!['.'] + ext),
{
    let name = stem + seq!['.'] + ext;
    lemma_split_on_no_sep(name, '/');
    let parts = seq![name];
    assert(parts.drop_last() =~= Seq::<Seq<char>>::empty());
    assert(parts.last() == name);
    assert(!skipped_component(name)) by {
        assert(name.len() >= 3);
    }
    assert(kept_components(parts.drop_last()) =~= Seq::<Seq<char>>::empty());
    assert(kept_components(parts) =~= seq![name]);
    assert(name != seq!['.', '.']) by {
        assert(name.len() >= 3);
    }
    assert(file_name_of(name) == Some(name));
    lemma_extension_of_stem_dot(stem, ext);
}

/// Whether a file name's extension marks an already-compressed format.
pub open spec fn incompressible_name(name: Seq<char>) -> bool {
    match file_name_of(name) {
        Some(f) => match extension_of(f) {
            Some(e) => exists|k: int| 0 <= k < 20 && lower_eq(e, #[trigger] INCOMPRESSIBLE_EXTS@[k]@),
            None => false,
        },
        None => false,
    }
}

/// The file name part of a path (`Path::file_name`).
fn file_name_chars(name: &str) -> (r: Option<Vec<char>>)
    ensures
        r matches Some(f) ==> file_name_of(name@) == Some(f@),
        r is None ==> file_name_of(name@) is None,
{
    let chars = chars_of(name);
    let parts = split_chars(&chars, '/');
    let ghost sp = split_on(name@, '/');
    let mut found: Option<usize> = None;
    let mut i: usize = 0;
    while i < parts.len()
        invariant
            i <= parts@.len(),
            sp == split_on(name@, '/'),
            sp == parts@.map_values(|p: Vec<char>| p@),
            found matches Some(k) ==> k < i && kept_components(sp.take(i as int)).len() > 0 && kept_components(sp.take(i as int)).last() == parts@[k as int]@,
            found is None ==> kept_components(sp.take(i as int)).len() == 0,
        decreases parts@.len() - i,
    {
        let p = &parts[i];
        proof {
            assert(sp[i as int] == p@);
            assert(sp.take(i + 1).drop_last() =~= sp.take(i as int));
            assert(sp.take(i + 1).last() == p@);
        }
        let is_cur = p.len() == 1 && p[0] == '.';
        proof {
            if is_cur {
                assert(p@ =~= seq!['.']);
            }
            if p@ == seq!['.'] {
                assert(p@[0] == '.');
            }
        }
        if !(p.len() == 0 || is_cur) {
            found = Some(i);
        }
        i = i + 1;
    }
    proof {
        assert(sp.take(i as int) =~= sp);
    }
    match found {
        Some(k) => {
            let f = &parts[k];
            if f.len() == 2 && f[0] == '.' && f[1] == '.' {
                assert(f@ =~= seq!['.', '.']);
                None
            } else {
                proof {
                    if f@ == seq!['.', '.'] {
                        assert(f@[0] == '.' && f@[1] == '.');
                    }
                }
                Some(f.clone())
            }
        },
        None => None,
    }
}

/// The extension of a file name (`Path::extension`).
fn extension_chars(file: &Vec<char>) -> (r: Option<Vec<char>>)
    ensures
        r matches Some(e) ==> extension_of(file@) == Some(e@),
        r is None ==> extension_of(file@) is None,
{
    let n = file.len();
    let mut i: usize = n;
    while i > 0
        invariant
            i <= n,
            n == file@.len(),
            forall|j: int| i <= j < n ==> file@[j] != '.',
        decreases i,
    {
        if file[i - 1] == '.' {
            let dot = i - 1;
            if dot == 0 {
                proof {
                    assert(!exists|j: int| 0 < j < file@.len() && file@[j] == '.');
                }
                return None;
            }
            let mut e: Vec<char> = Vec::new();
            let mut k: usize = dot + 1;
            while k < n
                invariant
                    dot + 1 <= k <= n,
                    n == file@.len(),
                    e@ == file@.subrange(dot + 1, k as int),
                decreases n - k,
            {
                e.push(file[k]);
                k = k + 1;
                assert(file@.subrange(dot + 1, k as int) =~= file@.subrange(dot + 1, k - 1).push(
                    file@[k - 1],
                ));
            }
            proof {
                let w = choose|w: int|
                    0 < w < file@.len() && file@[w] == '.' && forall|j: int|
                        w < j < file@.len() ==> file@[j] != '.';
                assert(0 < dot < file@.len() && file@[dot as int] == '.');
                assert(w == dot);
                assert(e@ =~= file@.skip(dot + 1));
            }
            return Some(e);
        }
        i = i - 1;
    }
    None
}

/// Whether the name marks an already-compressed format.
pub fn is_incompressible_name(filename: &str) -> (b: bool)
    ensures
        b == incompressible_name(filename@),
{
    match file_name_chars(filename) {
        Some(f) => match extension_chars(&f) {
            Some(ext) => {
                let mut k: usize = 0;
                while k < 20
                    invariant
                        k <= 20,
                        file_name_of(filename@) == Some(f@),
                        extension_of(f@) == Some(ext@),
                        forall|j: int| 0 <= j < k ==> !lower_eq(ext@, #[trigger] INCOMPRESSIBLE_EXTS@[j]@),
                    decreases 20 - k,
                {
                    if lower_eq_str(&ext, INCOMPRESSIBLE_EXTS[k]) {
                        assert(lower_eq(ext@, INCOMPRESSIBLE_EXTS@[k as int]@));
                        return true;
                    }
                    k = k + 1;
                }
                false
            },
            None => false,
        },
        None => false,
    }
}

/// What `zstd::stream::encode_all` produces at a compression level.
pub uninterp spec fn zstd_compressed(data: Seq<u8>, level: int) -> Seq<u8>;

/// What a zstd decoder reading `data` yields within `limit` bytes of output,
/// or `None` when decoding fails.
pub uninterp spec fn zstd_decoded(data: Seq<u8>, limit: nat) -> Option<Seq<u8>>;

/// `zstd::stream::encode_all`: the compressed form of `data`, which depends on
/// the data and the level alone. Reading an in-memory slice and writing into a
/// `Vec` cannot fail, and a level in zstd's range is accepted, so the call
/// succeeds there; the one failure left unsaid is the compression context
/// failing to allocate. A decoder reading the output back, with room for at
/// least the input's length, yields the input.
#[verifier::external_body]
fn zstd_encode_all(data: &[u8], level: i32) -> (r: Option<Vec<u8>>)
    ensures
        r matches Some(c) ==> c@ == zstd_compressed(data@, level as int),
        1 <= level <= 22 ==> r is Some,
        r matches Some(c) ==> forall|limit: nat| data@.len() <= limit ==> #[trigger] zstd_decoded(c@, limit) == Some(data@),
{
    zstd::stream::encode_all(data, level).ok()
}

/// Why a decoding failed, with the decoder's message.
pub enum ZstdFailure {
    Init(String),
    Read(String),
}

/// `zstd::Decoder::new(data)`, limited with `Read::take(limit)` and drained with
/// `read_to_end`. The output never exceeds the limit, depends on the data and
/// the limit alone, and what `encode_all` produced for at most `limit` bytes
/// decodes back to those bytes.
#[verifier::external_body]
fn zstd_decode_limited(data: &[u8], limit: u64) -> (r: Result<Vec<u8>, ZstdFailure>)
    ensures
        r matches Ok(out) ==> out@.len() <= limit && zstd_decoded(data@, limit as nat) == Some(out@),
        r is Err ==> zstd_decoded(data@, limit as nat) is None,
        r is Err ==> forall|m: Seq<u8>, level: int|
            !(m.len() <= limit && 1 <= level <= 22 && data@ == #[trigger] zstd_compressed(m, level)),
        r matches Ok(out) ==> forall|m: Seq<u8>, level: int|
            m.len() <= limit && 1 <= level <= 22 && data@ == #[trigger] zstd_compressed(m, level)
                ==> out@ == m,
{
    let decoder = match zstd::Decoder::new(data) {
        Ok(d) => d,
        Err(e) => return Err(ZstdFailure::Init(e.to_string())),
    };
    let mut output = Vec::new();
    match decoder.take(limit).read_to_end(&mut output) {
        Ok(_) => Ok(output),
        Err(e) => Err(ZstdFailure::Read(e.to_string())),
    }
}

/// The compression level chunks are compressed at.
pub const ZSTD_LEVEL: i32 = 3;

/// The most bytes one chunk may decompress to (20 MiB).
pub const DECOMPRESS_LIMIT: u64 = 20 * 1024 * 1024;

/// How many leading bytes the entropy estimate looks at.
pub const ENTROPY_SAMPLE: usize = 4096;

/// The leading bytes the entropy estimate looks at.
pub open spec fn entropy_sample(data: Seq<u8>) -> Seq<u8> {
    if data.len() < ENTROPY_SAMPLE {
        data
    } else {
        data.take(ENTROPY_SAMPLE as int)
    }
}

/// How often `b` occurs in `s`.
pub open spec fn occurrences(s: Seq<u8>, b: u8) -> nat
    decreases s.len(),
{
    if s.len() == 0 {
        0
    } else {
        occurrences(s.drop_last(), b) + if s.last() == b {
            1nat
        } else {
            0nat
        }
    }
}

/// The byte histogram of the entropy sample: entry `b` counts the bytes equal
/// to `b`. The entropy itself is a floating-point formula over these counts.
pub fn sample_histogram(data: &[u8]) -> (counts: Vec<u64>)
    ensures
        counts@.len() == 256,
        forall|b: int| 0 <= b < 256 ==> counts@[b] == occurrences(entropy_sample(data@), b as u8),
{
    let n: usize = if data.len() < ENTROPY_SAMPLE {
        data.len()
    } else {
        ENTROPY_SAMPLE
    };
    let ghost sample = entropy_sample(data@);
    let mut counts: Vec<u64> = Vec::new();
    let mut k: usize = 0;
    while k < 256
        invariant
            k <= 256,
            counts@.len() == k,
            forall|b: int| 0 <= b < k ==> counts@[b] == 0,
        decreases 256 - k,
    {
        counts.push(0);
        k = k + 1;
    }
    let mut i: usize = 0;
    while i < n
        invariant
            i <= n <= ENTROPY_SAMPLE,
            n == sample.len(),
            sample == entropy_sample(data@),
            sample.len() <= data@.len(),
            forall|j: int| 0 <= j < n ==> sample[j] == data@[j],
            counts@.len() == 256,
            forall|b: int| 0 <= b < 256 ==> counts@[b] == occurrences(sample.take(i as int), b as u8),
            forall|b: int| 0 <= b < 256 ==> counts@[b] <= i,
        decreases n - i,
    {
        let x = data[i];
        proof {
            assert(sample.take(i + 1).drop_last() =~= sample.take(i as int));
            assert(sample.take(i + 1).last() == x);
        }
        let c = counts[x as usize];
        counts.set(x as usize, c + 1);
        i = i + 1;
    }
    assert(sample.take(n as int) =~= sample);
    counts
}

/// Compresses a chunk when worthwhile, returning the bytes to send and whether
/// they are compressed. Names of compressed formats, and samples the caller's
/// entropy estimate finds above 7.5 bits per byte, are left as they are;
/// otherwise the zstd output (level 3) is used when it is shorter.
pub fn maybe_compress(data: &[u8], filename: &str, sample_high_entropy: bool) -> (r: (Vec<u8>, bool))
    ensures
        !r.1 ==> r.0@ == data@,
        r.1 ==> r.0@ == zstd_compressed(data@, ZSTD_LEVEL as int) && r.0@.len() < data@.len(),
        r.1 ==> !incompressible_name(filename@),
        r.1 ==> !(data@.len() > 0 && sample_high_entropy),
        !incompressible_name(filename@) && !(data@.len() > 0 && sample_high_entropy)
            && zstd_compressed(data@, ZSTD_LEVEL as int).len() < data@.len() ==> r.1,
        r.1 && data@.len() <= DECOMPRESS_LIMIT ==> decompressed(r.0@) == Some(data@),
{
    if is_incompressible_name(filename) {
        return (vstd::slice::slice_to_vec(data), false);
    }
    let sample_len: usize = if data.len() < ENTROPY_SAMPLE {
        data.len()
    } else {
        ENTROPY_SAMPLE
    };
    if sample_len > 0 && sample_high_entropy {
        return (vstd::slice::slice_to_vec(data), false);
    }
    if let Some(compressed) = zstd_encode_all(data, ZSTD_LEVEL) {
        if compressed.len() < data.len() {
            return (compressed, true);
        }
    }
    (vstd::slice::slice_to_vec(data), false)
}

/// What a chunk decompresses to: the zstd output, when decoding succeeds and
/// yields at most `DECOMPRESS_LIMIT` bytes (it is read with one byte of
/// headroom, so a longer output shows itself); `None` otherwise.
pub open spec fn decompressed(data: Seq<u8>) -> Option<Seq<u8>> {
    match zstd_decoded(data, (DECOMPRESS_LIMIT + 1) as nat) {
        Some(out) => if out.len() <= DECOMPRESS_LIMIT {
            Some(out)
        } else {
            None
        },
        None => None,
    }
}

/// Decompresses a chunk. A protocol error when the data is not zstd, and when
/// it expands past 20 MiB (a compression bomb is refused, never cut short).
pub fn decompress(data: &[u8]) -> (r: Result<Vec<u8>, DropWireError>)
    ensures
        r matches Ok(out) ==> decompressed(data@) == Some(out@),
        r is Err <==> decompressed(data@) is None,
        r matches Err(e) ==> e is Protocol,
        forall|m: Seq<u8>|
            m.len() <= DECOMPRESS_LIMIT && data@ == #[trigger] zstd_compressed(m, ZSTD_LEVEL as int) ==> (r matches Ok(
                out,
            ) && out@ == m),
{
    match zstd_decode_limited(data, DECOMPRESS_LIMIT + 1) {
        Ok(out) => {
            if out.len() as u64 > DECOMPRESS_LIMIT {
                Err(DropWireError::Protocol(String::from_str("Decompressed chunk exceeds 20 MiB")))
            } else {
                Ok(out)
            }
        },
        Err(ZstdFailure::Init(msg)) => Err(
            DropWireError::Protocol(String::from_str("zstd init: ").concat(msg.as_str())),
        ),
        Err(ZstdFailure::Read(msg)) => Err(
            DropWireError::Protocol(String::from_str("Decompression failed: ").concat(msg.as_str())),
        ),
    }
}

} // verus!
