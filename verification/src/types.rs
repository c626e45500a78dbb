//! The vocabulary of a transfer: code phrases, channels, keys, file metadata
//! and the limits of the protocol.
use vstd::prelude::*;
use vstd::string::StrSliceExecFns;
use crate::error::{DropWireError, protocol_error};
use crate::text::{chars_of, split_chars, split_on, parse_u32_chars, parse_u32_spec, lemma_split_on_first, lemma_split_on_no_sep, lemma_split_on_nonempty, string_from_chars};
use crate::wordlist::{get_wordlist, in_wordlist, is_word};

verus! {

/// The chunk size files are cut into when sending a directory.
pub const CHUNK_SIZE: usize = 1_048_576;

/// The most parallel streams a transfer opens.
pub const MAX_STREAMS: u8 = 8;

/// The number of parallel streams used when none is asked for.
pub const DEFAULT_STREAMS: u8 = 4;

/// The largest payload one frame may carry (16 MiB).
pub const FRAME_MAX_SIZE: u32 = 16_777_216;

/// The secret phrase two peers share, such as `7-guitar-abandon`.
#[derive(Clone, Debug, PartialEq, Eq, Hash)]
pub struct CodePhrase(pub String);

/// The rendezvous name both peers register under at the relay.
#[derive(Clone, Debug, PartialEq, Eq, Hash)]
pub struct ChannelId(pub String);

/// The channel of a code: the text before its first `-` (all of it when
/// there is none).
pub open spec fn channel_of(code: Seq<char>) -> Seq<char> {
    split_on(code, '-')[0]
}

impl ChannelId {
    /// The channel a code phrase rendezvous on.
    pub fn derive(code: &str) -> (c: Self)
        ensures
            c.0@ == channel_of(code@),
    {
        let n = code.unicode_len();
        let mut i: usize = 0;
        while i < n
            invariant
                i <= n,
                n == code@.len(),
                forall|j: int| 0 <= j < i ==> code@[j] != '-',
            decreases n - i,
        {
            if code.get_char(i) == '-' {
                let head = code.substring_char(0, i);
                proof {
                    let p = code@.take(i as int);
                    let q = code@.skip(i + 1);
                    assert(!p.contains('-')) by {
                        if p.contains('-') {
                            let j = choose|j: int| 0 <= j < p.len() && p[j] == '-';
                            assert(code@[j] == '-');
                        }
                    }
                    assert(p.push('-') + q =~= code@);
                    lemma_split_on_first(p, '-', q);
                }
                return ChannelId(head.to_string());
            }
            i = i + 1;
        }
        proof {
            assert(!code@.contains('-')) by {
                if code@.contains('-') {
                    let j = choose|j: int| 0 <= j < code@.len() && code@[j] == '-';
                    assert(code@[j] != '-');
                }
            }
            lemma_split_on_no_sep(code@, '-');
        }
        ChannelId(code.to_string())
    }
}

/// A code phrase is three `-`-separated parts: a number from 1 to 999 written
/// without a leading zero (as `u32::from_str` reads it), then two words of the
/// BIP-39 list.
pub open spec fn code_phrase_valid(phrase: Seq<char>) -> bool {
    let parts = split_on(phrase, '-');
    &&& parts.len() == 3
    &&& !(parts[0].len() > 0 && parts[0][0] == '0')
    &&& parse_u32_spec(parts[0]) matches Some(n) && 1 <= n <= 999
    &&& in_wordlist(parts[1])
    &&& in_wordlist(parts[2])
}

impl CodePhrase {
    /// Checks a phrase: a number from 1 to 999 without a leading zero, then two
    /// listed words, joined by `-`. Every listed word is lowercase, so a word
    /// with an uppercase letter is refused as unlisted.
    pub fn new(phrase: &str) -> (r: Result<Self, DropWireError>)
        ensures
            r is Ok <==> code_phrase_valid(phrase@),
            r matches Ok(c) ==> c.0@ == phrase@,
            r matches Err(e) ==> e matches DropWireError::InvalidCodePhrase(m) && m@ == phrase@,
    {
        let chars = chars_of(phrase);
        let parts = split_chars(&chars, '-');
        proof {
            assert(parts@.map_values(|p: Vec<char>| p@).len() == parts@.len());
        }
        if parts.len() != 3 {
            return Err(DropWireError::InvalidCodePhrase(phrase.to_string()));
        }
        let ghost sp = split_on(phrase@, '-');
        proof {
            assert(parts@.map_values(|p: Vec<char>| p@)[0] == parts@[0]@);
            assert(parts@.map_values(|p: Vec<char>| p@)[1] == parts@[1]@);
            assert(parts@.map_values(|p: Vec<char>| p@)[2] == parts@[2]@);
        }
        let num_str = &parts[0];
        if num_str.len() > 0 && num_str[0] == '0' {
            return Err(DropWireError::InvalidCodePhrase(phrase.to_string()));
        }
        let num = match parse_u32_chars(num_str) {
            Some(n) => n,
            None => {
                return Err(DropWireError::InvalidCodePhrase(phrase.to_string()));
            },
        };
        if num == 0 || num > 999 {
            return Err(DropWireError::InvalidCodePhrase(phrase.to_string()));
        }
        let wordlist = get_wordlist();
        if !is_word(&wordlist, &parts[1]) {
            return Err(DropWireError::InvalidCodePhrase(phrase.to_string()));
        }
        if !is_word(&wordlist, &parts[2]) {
            return Err(DropWireError::InvalidCodePhrase(phrase.to_string()));
        }
        Ok(CodePhrase(phrase.to_string()))
    }
}

/// A path component that names no directory: empty (from `//` or a trailing
/// `/`) or `.`.
pub open spec fn skipped_component(p: Seq<char>) -> bool {
    p.len() == 0 || p == seq!['.']
}

/// The text contains `..`.
pub open spec fn has_dotdot(p: Seq<char>) -> bool {
    exists|i: int| 0 <= i < p.len() - 1 && p[i] == '.' && #[trigger] p[i + 1] == '.'
}

/// A component that is refused: it climbs (`..`) or names a drive (`:`).
pub open spec fn bad_component(p: Seq<char>) -> bool {
    !skipped_component(p) && (p.contains(':') || has_dotdot(p))
}

/// The components that name a directory or file, in order.
pub open spec fn kept_components(parts: Seq<Seq<char>>) -> Seq<Seq<char>>
    decreases parts.len(),
{
    if parts.len() == 0 {
        Seq::empty()
    } else if skipped_component(parts.last()) {
        kept_components(parts.drop_last())
    } else {
        kept_components(parts.drop_last()).push(parts.last())
    }
}

/// Components joined with `/`.
pub open spec fn join_slash(parts: Seq<Seq<char>>) -> Seq<char>
    decreases parts.len(),
{
    if parts.len() == 0 {
        Seq::empty()
    } else if parts.len() == 1 {
        parts[0]
    } else {
        join_slash(parts.drop_last()) + seq!['/'] + parts.last()
    }
}

/// Where an untrusted relative path may be written: refused when absolute or
/// when a component climbs or names a drive; otherwise its components, with
/// empty and `.` ones dropped, joined with `/`.
pub open spec fn safe_path_spec(untrusted: Seq<char>) -> Option<Seq<char>> {
    let parts = split_on(untrusted, '/');
    if untrusted.len() > 0 && untrusted[0] == '/' {
        None
    } else if exists|i: int| 0 <= i < parts.len() && bad_component(#[trigger] parts[i]) {
        None
    } else {
        Some(join_slash(kept_components(parts)))
    }
}

/// Completeness of sanitizing: a relative path none of whose `/`-separated
/// components holds a `:` or two dots in a row is accepted, as its non-empty,
/// non-`.` components joined with `/` (a space, say, is kept as it is).
pub proof fn lemma_safe_path_complete(untrusted: Seq<char>)
    requires
        !(untrusted.len() > 0 && untrusted[0] == '/'),
        forall|i: int|
            0 <= i < split_on(untrusted, '/').len() ==> {
                let c = #[trigger] split_on(untrusted, '/')[i];
                &&& forall|j: int| 0 <= j < c.len() ==> c[j] != ':'
                &&& forall|j: int| 0 <= j < c.len() - 1 ==> !(c[j] == '.' && #[trigger] c[j + 1] == '.')
            },
    ensures
        safe_path_spec(untrusted) == Some(join_slash(kept_components(split_on(untrusted, '/')))),
{
    let parts = split_on(untrusted, '/');
    assert forall|i: int| 0 <= i < parts.len() implies !bad_component(#[trigger] parts[i]) by {
        let c = parts[i];
        if c.contains(':') {
            let j = choose|j: int| 0 <= j < c.len() && c[j] == ':';
            assert(c[j] != ':');
        }
        if has_dotdot(c) {
            let j = choose|j: int| 0 <= j < c.len() - 1 && c[j] == '.' && #[trigger] c[j + 1] == '.';
            assert(!(c[j] == '.' && c[j + 1] == '.'));
        }
    }
}

/// A piece that `split_on` cuts never holds the separator.
proof fn lemma_split_pieces_lack_sep(s: Seq<char>, sep: char)
    ensures
        forall|i: int| 0 <= i < split_on(s, sep).len() ==> !(#[trigger] split_on(s, sep)[i]).contains(sep),
    decreases s.len(),
{
    lemma_split_on_nonempty(s, sep);
    if s.len() > 0 {
        lemma_split_pieces_lack_sep(s.drop_last(), sep);
        lemma_split_on_nonempty(s.drop_last(), sep);
        let init = split_on(s.drop_last(), sep);
        if s.last() != sep {
            let l = init.last();
            assert(!l.contains(sep)) by {
                assert(init[init.len() - 1] == l);
            }
            assert forall|i: int| 0 <= i < split_on(s, sep).len() implies !(#[trigger] split_on(s, sep)[i]).contains(sep) by {
                if i == init.len() - 1 {
                    let n = l.push(s.last());
                    assert(split_on(s, sep)[i] == n);
                    if n.contains(sep) {
                        let j = choose|j: int| 0 <= j < n.len() && n[j] == sep;
                        if j < l.len() {
                            assert(l[j] == sep);
                        }
                    }
                } else {
                    assert(split_on(s, sep)[i] == init[i]);
                }
            }
        } else {
            assert forall|i: int| 0 <= i < split_on(s, sep).len() implies !(#[trigger] split_on(s, sep)[i]).contains(sep) by {
                if i < init.len() {
                    assert(split_on(s, sep)[i] == init[i]);
                } else {
                    assert(split_on(s, sep)[i] =~= Seq::<char>::empty());
                }
            }
        }
    }
}

/// Every kept component is one of the pieces and is not skipped.
proof fn lemma_kept_from_parts(parts: Seq<Seq<char>>)
    ensures
        forall|j: int| 0 <= j < kept_components(parts).len() ==> exists|i: int|
            0 <= i < parts.len() && #[trigger] kept_components(parts)[j] == parts[i] && !skipped_component(parts[i]),
    decreases parts.len(),
{
    if parts.len() > 0 {
        lemma_kept_from_parts(parts.drop_last());
        let k0 = kept_components(parts.drop_last());
        assert forall|j: int| 0 <= j < kept_components(parts).len() implies exists|i: int|
            0 <= i < parts.len() && #[trigger] kept_components(parts)[j] == parts[i] && !skipped_component(parts[i]) by {
            if j < k0.len() {
                assert(kept_components(parts)[j] == k0[j]);
                let i = choose|i: int| 0 <= i < parts.drop_last().len() && k0[j] == parts.drop_last()[i] && !skipped_component(parts.drop_last()[i]);
                assert(parts[i] == parts.drop_last()[i]);
            } else {
                assert(kept_components(parts)[j] == parts[parts.len() - 1]);
            }
        }
    }
}

/// Components that hold no `/`, `:` or `..` and are not empty join into a
/// text that holds no `:` or `..` and does not start with `/`.
proof fn lemma_join_confined(ks: Seq<Seq<char>>)
    requires
        forall|j: int| 0 <= j < ks.len() ==> {
            &&& (#[trigger] ks[j]).len() > 0
            &&& !ks[j].contains('/')
            &&& !ks[j].contains(':')
            &&& !has_dotdot(ks[j])
        },
    ensures
        !join_slash(ks).contains(':'),
        !has_dotdot(join_slash(ks)),
        join_slash(ks).len() > 0 ==> join_slash(ks)[0] != '/',
    decreases ks.len(),
{
    if ks.len() == 1 {
        assert(join_slash(ks) == ks[0]);
        assert(ks[0][0] != '/') by {
            if ks[0][0] == '/' {
                assert(ks[0].contains('/'));
            }
        }
    } else if ks.len() > 1 {
        let init = ks.drop_last();
        lemma_join_confined(init);
        let a = join_slash(init);
        let k = ks.last();
        assert(ks[ks.len() - 1] == k);
        let j = a + seq!['/'] + k;
        assert(join_slash(ks) == j);
        assert(!j.contains(':')) by {
            if j.contains(':') {
                let t = choose|t: int| 0 <= t < j.len() && j[t] == ':';
                if t < a.len() {
                    assert(a[t] == ':');
                } else if t > a.len() {
                    assert(k[t - a.len() - 1] == ':');
                }
            }
        }
        assert(!has_dotdot(j)) by {
            if has_dotdot(j) {
                let t = choose|t: int| 0 <= t < j.len() - 1 && j[t] == '.' && #[trigger] j[t + 1] == '.';
                if t + 1 < a.len() {
                    assert(j[t] == a[t] && j[t + 1] == a[t + 1]);
                    assert(a[t] == '.' && a[t + 1] == '.');
                    assert(has_dotdot(a));
                } else if t > a.len() {
                    let u = t - a.len() - 1;
                    assert(j[t] == k[u] && j[t + 1] == k[u + 1]);
                    assert(k[u] == '.' && k[u + 1] == '.');
                    assert(has_dotdot(k));
                } else if t + 1 == a.len() {
                    assert(j[t + 1] == '/');
                } else {
                    assert(j[t] == '/');
                }
            }
        }
        lemma_join_nonempty(init);
        assert(j[0] == a[0]);
    }
}

proof fn lemma_join_nonempty(ks: Seq<Seq<char>>)
    requires
        forall|j: int| 0 <= j < ks.len() ==> (#[trigger] ks[j]).len() > 0,
    ensures
        ks.len() > 0 ==> join_slash(ks).len() > 0,
    decreases ks.len(),
{
    if ks.len() > 1 {
        lemma_join_nonempty(ks.drop_last());
    }
}

/// A path that `safe_path` accepts stays under the directory it is joined to:
/// it does not start with `/`, and holds neither `..` nor a drive's `:`.
pub proof fn lemma_safe_path_confined(untrusted: Seq<char>)
    ensures
        safe_path_spec(untrusted) matches Some(p) ==> {
            &&& !(p.len() > 0 && p[0] == '/')
            &&& !has_dotdot(p)
            &&& !p.contains(':')
        },
{
    if safe_path_spec(untrusted) is Some {
        let parts = split_on(untrusted, '/');
        let ks = kept_components(parts);
        lemma_split_pieces_lack_sep(untrusted, '/');
        lemma_kept_from_parts(parts);
        assert forall|j: int| 0 <= j < ks.len() implies {
            &&& (#[trigger] ks[j]).len() > 0
            &&& !ks[j].contains('/')
            &&& !ks[j].contains(':')
            &&& !has_dotdot(ks[j])
        } by {
            let i = choose|i: int| 0 <= i < parts.len() && ks[j] == parts[i] && !skipped_component(parts[i]);
            assert(!bad_component(parts[i]));
        }
        lemma_join_confined(ks);
    }
}

/// Whether the characters contain `..`.
fn contains_dotdot(p: &Vec<char>) -> (b: bool)
    ensures
        b == has_dotdot(p@),
{
    let mut i: usize = 0;
    while p.len() > 0 && i < p.len() - 1
        invariant
            i <= p@.len(),
            forall|j: int| 0 <= j < i && j < p@.len() - 1 ==> !(p@[j] == '.' && #[trigger] p@[j + 1] == '.'),
        decreases p@.len() - i,
    {
        if p[i] == '.' && p[i + 1] == '.' {
            return true;
        }
        i = i + 1;
    }
    false
}

/// Whether the characters contain `c`.
fn contains_char(p: &Vec<char>, c: char) -> (b: bool)
    ensures
        b == p@.contains(c),
{
    let mut i: usize = 0;
    while i < p.len()
        invariant
            i <= p@.len(),
            forall|j: int| 0 <= j < i ==> p@[j] != c,
        decreases p@.len() - i,
    {
        if p[i] == c {
            assert(p@[i as int] == c);
            return true;
        }
        i = i + 1;
    }
    false
}

/// The relative path an untrusted name from a peer may be written to. Refuses
/// absolute paths ("Absolute path rejected"), `..` components ("Path
/// traversal detected") and components holding `:` or `..` ("Invalid path
/// component"); drops empty and `.` components.
pub fn safe_path(untrusted: &str) -> (r: Result<String, DropWireError>)
    ensures
        r is Ok <==> safe_path_spec(untrusted@) is Some,
        r matches Ok(p) ==> safe_path_spec(untrusted@) == Some(p@),
        r matches Err(e) ==> e is Protocol,
{
    let chars = chars_of(untrusted);
    if chars.len() > 0 && chars[0] == '/' {
        return Err(protocol_error("Absolute path rejected"));
    }
    let parts = split_chars(&chars, '/');
    let ghost sp = split_on(untrusted@, '/');
    let ghost m = parts@.map_values(|p: Vec<char>| p@);
    let mut safe: Vec<char> = Vec::new();
    let mut nkept: usize = 0;
    let mut i: usize = 0;
    while i < parts.len()
        invariant
            i <= parts@.len(),
            sp == split_on(untrusted@, '/'),
            !(untrusted@.len() > 0 && untrusted@[0] == '/'),
            m == sp,
            m == parts@.map_values(|p: Vec<char>| p@),
            forall|j: int| 0 <= j < i ==> !bad_component(#[trigger] sp[j]),
            nkept == kept_components(sp.take(i as int)).len(),
            nkept <= i,
            safe@ == join_slash(kept_components(sp.take(i as int))),
        decreases parts@.len() - i,
    {
        let comp = &parts[i];
        proof {
            assert(m[i as int] == comp@);
            assert(sp.take(i + 1).drop_last() =~= sp.take(i as int));
            assert(sp.take(i + 1).last() == comp@);
        }
        let is_cur = comp.len() == 1 && comp[0] == '.';
        proof {
            if is_cur {
                assert(comp@ =~= seq!['.']);
            }
        }
        if comp.len() == 0 || is_cur {
        } else {
            let is_parent = comp.len() == 2 && comp[0] == '.' && comp[1] == '.';
            if is_parent {
                proof {
                    assert(has_dotdot(comp@)) by {
                        assert(comp@[0] == '.' && comp@[0int + 1] == '.');
                    }
                    assert(bad_component(sp[i as int]));
                }
                return Err(protocol_error("Path traversal detected"));
            }
            if contains_char(comp, ':') || contains_dotdot(comp) {
                assert(bad_component(sp[i as int]));
                return Err(protocol_error("Invalid path component"));
            }
            if nkept > 0 {
                safe.push('/');
            }
            let mut k: usize = 0;
            let ghost base = safe@;
            while k < comp.len()
                invariant
                    k <= comp@.len(),
                    safe@ == base + comp@.take(k as int),
                decreases comp@.len() - k,
            {
                safe.push(comp[k]);
                k = k + 1;
                assert(comp@.take(k as int) =~= comp@.take(k - 1).push(comp@[k - 1]));
            }
            assert(comp@.take(k as int) =~= comp@);
            proof {
                let kc = kept_components(sp.take(i as int));
                assert(kept_components(sp.take(i + 1)) == kc.push(comp@));
                assert(kc.push(comp@).drop_last() =~= kc);
                if nkept == 0 {
                    assert(safe@ =~= comp@);
                    assert(kc.push(comp@) =~= seq![comp@]);
                } else {
                    assert(safe@ =~= join_slash(kc) + seq!['/'] + comp@);
                }
            }
            nkept = nkept + 1;
        }
        i = i + 1;
    }
    proof {
        assert(sp.take(i as int) =~= sp);
    }
    Ok(string_from_chars(safe.as_slice()))
}

/// Index of a chunk within a transfer.
#[derive(Clone, Copy, Debug, PartialEq, Eq, Hash, PartialOrd, Ord)]
pub struct ChunkIdx(pub u64);

/// The token both peers present on every stream once the PAKE succeeded.
pub struct AuthToken(pub [u8; 16]);

/// A per-stream encryption key.
pub struct StreamKey(pub [u8; 32]);

/// The key both peers derive from the PAKE.
pub struct SharedSecret(pub [u8; 32]);

/// One file of a transfer, as the receiver is told about it.
#[derive(Debug, Clone)]
pub struct FileMetadata {
    pub relative_path: String,
    pub size: u64,
    pub chunks: u64,
}

/// What the sender announces before the chunks: the files, the totals and
/// the hash of all their bytes.
#[derive(Debug, Clone)]
pub struct TransferManifest {
    pub files: Vec<FileMetadata>,
    pub total_size: u64,
    pub total_chunks: u64,
    pub overall_hash: [u8; 32],
}

} // verus!
